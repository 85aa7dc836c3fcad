//! Tracked cells: one value and its change marker.

use vstd::prelude::*;
use core::task::Poll;
use crate::component::AsyncComponent;
use crate::context::{wake_seq, StateContext, WakeHandle};
use crate::flags::{into_poll, ComponentPollFlags};

verus! {

/// The change marker of a tracked cell.
#[derive(Clone, Copy, Debug, PartialEq, Eq, Structural)]
pub enum StateStatus {
    /// Nothing changed since the last poll, and nobody waits for a change.
    Unchanged,
    /// Nothing changed since the last poll; the handle is invoked at the next change.
    AwaitingWake(WakeHandle),
    /// Something changed since the last poll.
    Changed,
}

impl StateStatus {
    /// Whether a poll reports a change.
    pub open spec fn reports(self) -> bool {
        self is Changed
    }

    /// The marker after a poll that registers `waker`.
    pub open spec fn polled(self, waker: WakeHandle) -> StateStatus {
        match self {
            StateStatus::Changed => StateStatus::Unchanged,
            _ => StateStatus::AwaitingWake(waker),
        }
    }

    /// The handle that a change, or the end of the cell, invokes.
    pub open spec fn registered(self) -> Option<WakeHandle> {
        match self {
            StateStatus::AwaitingWake(waker) => Some(waker),
            _ => None,
        }
    }
}

/// The summary that a change marker contributes to a poll: the state category
/// when it reports a change, nothing otherwise.
pub open spec fn structural_flags(status: StateStatus) -> ComponentPollFlags {
    if status.reports() {
        ComponentPollFlags::spec_state()
    } else {
        ComponentPollFlags::spec_empty()
    }
}

/// One value together with its change marker.
///
/// A new cell is marked changed. Every mutable access marks it changed and
/// invokes the handle that the last poll registered, if that poll had
/// nothing to report. A poll reports the change once and clears the marker.
#[derive(Debug)]
pub struct StateCell<T> {
    status: StateStatus,
    inner: T,
}

impl<T> StateCell<T> {
    /// The change marker.
    pub closed spec fn status(&self) -> StateStatus {
        self.status
    }

    /// The value held.
    pub closed spec fn value(&self) -> T {
        self.inner
    }

    /// The cell that `new` makes.
    pub closed spec fn spec_new(inner: T) -> Self {
        StateCell { status: StateStatus::Changed, inner }
    }

    /// The cell after it was marked changed.
    pub closed spec fn marked(self) -> Self {
        StateCell { status: StateStatus::Changed, inner: self.inner }
    }

    /// The cell after a poll that registers `waker`.
    pub closed spec fn refreshed(self, waker: WakeHandle) -> Self {
        StateCell { status: self.status.polled(waker), inner: self.inner }
    }

    /// The cell after `n` marks in a row.
    pub open spec fn marked_times(self, n: nat) -> Self
        decreases n,
    {
        if n == 0 {
            self
        } else {
            self.marked_times((n - 1) as nat).marked()
        }
    }

    /// The handles invoked, in order, by `n` marks in a row.
    pub open spec fn wakes_of_marks(self, n: nat) -> Seq<WakeHandle>
        decreases n,
    {
        if n == 0 {
            Seq::empty()
        } else {
            let before = self.marked_times((n - 1) as nat);
            match before.status().registered() {
                Some(waker) => self.wakes_of_marks((n - 1) as nat).push(waker),
                None => self.wakes_of_marks((n - 1) as nat),
            }
        }
    }

    /// A new cell holds the value and is marked changed.
    pub proof fn lemma_new(inner: T)
        ensures
            Self::spec_new(inner).status() == StateStatus::Changed,
            Self::spec_new(inner).value() == inner,
    {
    }

    /// A mark sets the marker to changed and keeps the value.
    pub proof fn lemma_marked(self)
        ensures
            self.marked().status() == StateStatus::Changed,
            self.marked().value() == self.value(),
    {
    }

    /// A poll moves the marker as [`StateStatus::polled`] says and keeps the value.
    pub proof fn lemma_refreshed(self, waker: WakeHandle)
        ensures
            self.refreshed(waker).status() == self.status().polled(waker),
            self.refreshed(waker).value() == self.value(),
    {
    }

    /// A cell that holds `inner` and is marked changed.
    pub fn new(inner: T) -> (r: Self)
        ensures
            r == Self::spec_new(inner),
            r.status() == StateStatus::Changed,
            r.value() == inner,
    {
        StateCell { status: StateStatus::Changed, inner }
    }

    /// Marks the cell changed without writing the value.
    ///
    /// The handle that the last poll registered, if any, is invoked once.
    pub fn invalidate(this: &mut Self, cx: &mut StateContext)
        ensures
            *final(this) == old(this).marked(),
            final(this).status() == StateStatus::Changed,
            final(this).value() == old(this).value(),
            final(cx).waker() == old(cx).waker(),
            final(cx).woken() == old(cx).woken_after(old(this).status().registered()),
    {
        match this.status {
            StateStatus::AwaitingWake(waker) => {
                cx.wake(waker);
            },
            _ => {},
        }
        this.status = StateStatus::Changed;
    }

    /// Polls the cell: reports a change once, else registers the context's handle.
    pub fn refresh(this: &mut Self, cx: &StateContext) -> (changed: bool)
        ensures
            changed == old(this).status().reports(),
            *final(this) == old(this).refreshed(cx.waker()),
            final(this).status() == old(this).status().polled(cx.waker()),
            final(this).value() == old(this).value(),
    {
        match this.status {
            StateStatus::Changed => {
                this.status = StateStatus::Unchanged;
                true
            },
            _ => {
                this.status = StateStatus::AwaitingWake(cx.task_context());
                false
            },
        }
    }

    /// Whether the next poll reports a change.
    pub fn is_changed(&self) -> (r: bool)
        ensures
            r == self.status().reports(),
    {
        match self.status {
            StateStatus::Changed => true,
            _ => false,
        }
    }

    /// Read access to the value. The marker is left alone.
    pub fn get(&self) -> (r: &T)
        ensures
            *r == self.value(),
    {
        &self.inner
    }

    /// Write access to the value. The cell is marked changed as by
    /// [`StateCell::invalidate`], whether or not the value is then written.
    pub fn get_mut(&mut self, cx: &mut StateContext) -> (r: &mut T)
        ensures
            *r == old(self).value(),
            final(self).value() == *final(r),
            final(self).status() == StateStatus::Changed,
            final(cx).waker() == old(cx).waker(),
            final(cx).woken() == old(cx).woken_after(old(self).status().registered()),
    {
        Self::invalidate(self, cx);
        &mut self.inner
    }

    /// Replaces the value and marks the cell changed; the old value is returned.
    pub fn set(&mut self, value: T, cx: &mut StateContext) -> (r: T)
        ensures
            r == old(self).value(),
            final(self).value() == value,
            final(self).status() == StateStatus::Changed,
            final(cx).waker() == old(cx).waker(),
            final(cx).woken() == old(cx).woken_after(old(self).status().registered()),
    {
        Self::invalidate(self, cx);
        let mut value = value;
        core::mem::swap(&mut self.inner, &mut value);
        value
    }

    /// Ends the cell and hands out its value.
    ///
    /// A handle that a poll registered and that was never invoked is invoked
    /// now, once, so that nobody is left waiting for a cell that is gone.
    pub fn release(self, cx: &mut StateContext) -> (r: T)
        ensures
            r == self.value(),
            final(cx).waker() == old(cx).waker(),
            final(cx).woken() == old(cx).woken_after(self.status().registered()),
    {
        match self.status {
            StateStatus::AwaitingWake(waker) => {
                cx.wake(waker);
            },
            _ => {},
        }
        self.inner
    }
}

/// A tracked cell is a component of its own: its poll reports the state
/// category when the cell changed.
impl<T> AsyncComponent for StateCell<T> {
    open spec fn poll_flags(&self) -> ComponentPollFlags {
        structural_flags(self.status())
    }

    open spec fn poll_wakes(&self) -> Seq<WakeHandle> {
        Seq::empty()
    }

    open spec fn polled(&self, waker: WakeHandle, post: &Self) -> bool {
        *post == self.refreshed(waker)
    }

    open spec fn release_wakes(&self) -> Seq<WakeHandle> {
        wake_seq(self.status().registered())
    }

    fn poll_next(&mut self, cx: &mut StateContext) -> (r: Poll<ComponentPollFlags>) {
        let mut result = ComponentPollFlags::empty();
        if StateCell::refresh(self, cx) {
            result.insert(ComponentPollFlags::state());
        }
        assert(cx.woken() + Seq::<WakeHandle>::empty() =~= cx.woken());
        into_poll(result)
    }

    fn release(self, cx: &mut StateContext) {
        let _ = StateCell::release(self, cx);
    }
}

impl<T> From<T> for StateCell<T> {
    fn from(value: T) -> (r: Self) {
        StateCell::new(value)
    }
}

impl<T> vstd::std_specs::convert::FromSpecImpl<T> for StateCell<T> {
    open spec fn obeys_from_spec() -> bool {
        true
    }

    open spec fn from_spec(value: T) -> Self {
        StateCell::spec_new(value)
    }
}

impl<T: Default> Default for StateCell<T> {
    fn default() -> (r: Self)
        ensures
            r.status() == StateStatus::Changed,
            call_ensures(T::default, (), r.value()),
    {
        StateCell::new(T::default())
    }
}

/// A leaf that a poll can ask for one event.
///
/// Tracked cells answer with `()` when they changed; stream cells answer with
/// the next value that their source produced.
pub trait State: Sized {
    type Output;

    /// What the next poll returns.
    spec fn next_output(&self) -> Option<Self::Output>;

    /// Whether `post` is this leaf after a poll that registers `waker`.
    spec fn updated(&self, waker: WakeHandle, post: &Self) -> bool;

    fn update(this: &mut Self, cx: &StateContext) -> (r: Option<Self::Output>)
        ensures
            r == old(this).next_output(),
            old(this).updated(cx.waker(), final(this)),
    ;
}

impl<T> State for StateCell<T> {
    type Output = ();

    open spec fn next_output(&self) -> Option<()> {
        if self.status().reports() {
            Some(())
        } else {
            None
        }
    }

    open spec fn updated(&self, waker: WakeHandle, post: &Self) -> bool {
        *post == self.refreshed(waker)
    }

    fn update(this: &mut Self, cx: &StateContext) -> (r: Option<()>) {
        if StateCell::refresh(this, cx) {
            Some(())
        } else {
            None
        }
    }
}

/// A new cell reports a change at its first poll, and at no poll after that
/// for as long as it is not marked again.
pub proof fn lemma_new_reports_once<T>(inner: T, first: WakeHandle, second: WakeHandle)
    ensures
        StateCell::spec_new(inner).status().reports(),
        !StateCell::spec_new(inner).refreshed(first).status().reports(),
        !StateCell::spec_new(inner).refreshed(first).refreshed(second).status().reports(),
        StateCell::spec_new(inner).refreshed(first).refreshed(second).value() == inner,
{
}

/// Any number of marks between two polls is reported as one change.
///
/// After `n >= 1` marks the cell is what one mark makes of it: the next poll
/// reports a change, the poll after that reports none, and over all `n` marks
/// a registered handle was invoked once and no other handle at all.
pub proof fn lemma_marks_coalesce<T>(cell: StateCell<T>, n: nat, first: WakeHandle, second: WakeHandle)
    requires
        n >= 1,
    ensures
        cell.marked_times(n) == cell.marked(),
        cell.marked_times(n).status().reports(),
        !cell.marked_times(n).refreshed(first).status().reports(),
        !cell.marked_times(n).refreshed(first).refreshed(second).status().reports(),
        cell.wakes_of_marks(n) == match cell.status().registered() {
            Some(waker) => seq![waker],
            None => Seq::<WakeHandle>::empty(),
        },
    decreases n,
{
    if n > 1 {
        lemma_marks_coalesce(cell, (n - 1) as nat, first, second);
        assert(cell.marked_times(n) == cell.marked_times((n - 1) as nat).marked());
        assert(cell.marked_times((n - 1) as nat).status().registered() is None);
    } else {
        assert(cell.marked_times(0) == cell);
        assert(cell.wakes_of_marks(0) == Seq::<WakeHandle>::empty());
        assert(cell.marked_times(1) == cell.marked_times(0).marked());
        match cell.status().registered() {
            Some(waker) => {
                assert(cell.wakes_of_marks(1) =~= seq![waker]);
            },
            None => {},
        }
    }
}

/// A cell that is released while a handle is registered in it invokes that
/// handle, once, and nothing else.
///
/// A poll that has nothing to report registers its handle. Releasing the
/// cell then invokes exactly that handle; had the cell been marked in
/// between, the mark would have invoked it and the release would invoke
/// nothing.
pub proof fn lemma_release_wakes_registered<T>(cell: StateCell<T>, waker: WakeHandle)
    requires
        !cell.status().reports(),
    ensures
        cell.refreshed(waker).status().registered() == Some(waker),
        cell.refreshed(waker).release_wakes() == seq![waker],
        cell.refreshed(waker).marked().release_wakes() == Seq::<WakeHandle>::empty(),
{
}

} // verus!
