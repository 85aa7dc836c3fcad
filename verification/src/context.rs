//! Wake handles and the context that every poll and every mutation is given.

use vstd::prelude::*;

verus! {

/// An opaque, freely copied capability that names one party to wake.
///
/// The library never invokes a handle itself. It stores the handle it is
/// polled with, and later records in the [`StateContext`] that the handle is
/// to be invoked; whoever owns the context performs the wake.
#[derive(Clone, Copy, Debug, PartialEq, Eq, Structural, Hash)]
pub struct WakeHandle {
    pub id: u64,
}

impl WakeHandle {
    pub fn new(id: u64) -> (r: Self)
        ensures
            r.id == id,
    {
        WakeHandle { id }
    }
}

/// The handles that invoking `wake`, if there is one, adds to the record.
pub open spec fn wake_seq(wake: Option<WakeHandle>) -> Seq<WakeHandle> {
    match wake {
        Some(handle) => seq![handle],
        None => Seq::empty(),
    }
}

/// The context of one poll or one mutation.
///
/// It carries the handle that a poll registers with every cell that has
/// nothing to report, and the ordered record of the handles that were invoked.
#[derive(Debug)]
pub struct StateContext {
    waker: WakeHandle,
    woken: Vec<WakeHandle>,
}

impl StateContext {
    /// The handle that polls register.
    pub closed spec fn waker(&self) -> WakeHandle {
        self.waker
    }

    /// Every invocation recorded so far, oldest first.
    pub closed spec fn woken(&self) -> Seq<WakeHandle> {
        self.woken@
    }

    /// The record after `wake`, if any, was invoked.
    pub open spec fn woken_after(&self, wake: Option<WakeHandle>) -> Seq<WakeHandle> {
        self.woken() + wake_seq(wake)
    }

    /// A context that carries `waker` and has recorded no invocation.
    pub fn new(waker: WakeHandle) -> (r: Self)
        ensures
            r.waker() == waker,
            r.woken() == Seq::<WakeHandle>::empty(),
    {
        StateContext { waker, woken: Vec::new() }
    }

    /// The handle to hand to anything that is polled on behalf of this context.
    pub fn task_context(&self) -> (r: WakeHandle)
        ensures
            r == self.waker(),
    {
        self.waker
    }

    /// Replaces the handle that later polls register.
    pub fn set_waker(&mut self, waker: WakeHandle)
        ensures
            final(self).waker() == waker,
            final(self).woken() == old(self).woken(),
    {
        self.waker = waker;
    }

    /// Records an invocation of the context's own handle, whatever the state
    /// of any cell.
    pub fn signal(&mut self)
        ensures
            final(self).waker() == old(self).waker(),
            final(self).woken() == old(self).woken().push(old(self).waker()),
    {
        let waker = self.waker;
        self.woken.push(waker);
    }

    /// Records an invocation of `handle`.
    pub fn wake(&mut self, handle: WakeHandle)
        ensures
            final(self).waker() == old(self).waker(),
            final(self).woken() == old(self).woken().push(handle),
    {
        self.woken.push(handle);
    }

    /// Records an invocation of `wake` if there is one.
    pub fn wake_if(&mut self, wake: Option<WakeHandle>)
        ensures
            final(self).waker() == old(self).waker(),
            final(self).woken() == old(self).woken_after(wake),
    {
        if let Some(handle) = wake {
            self.woken.push(handle);
        }
    }

    /// How many invocations are recorded.
    pub fn pending_wakes(&self) -> (r: usize)
        ensures
            r == self.woken().len(),
    {
        self.woken.len()
    }

    /// Hands out the recorded invocations, oldest first, and clears the record.
    pub fn take_woken(&mut self) -> (r: Vec<WakeHandle>)
        ensures
            r@ == old(self).woken(),
            final(self).woken() == Seq::<WakeHandle>::empty(),
            final(self).waker() == old(self).waker(),
    {
        let mut out: Vec<WakeHandle> = Vec::new();
        core::mem::swap(&mut self.woken, &mut out);
        out
    }
}

/// The place where the context of the running scope is kept.
///
/// A scope is entered with a context and left again; while it is entered,
/// the context can be looked up. At most one context is in the place at a
/// time.
#[derive(Debug)]
pub struct ContextScope {
    current: Option<StateContext>,
}

impl ContextScope {
    /// The context of the running scope, if a scope is entered.
    pub closed spec fn current(&self) -> Option<StateContext> {
        self.current
    }

    /// A place that holds no context.
    pub fn new() -> (r: Self)
        ensures
            r.current().is_none(),
    {
        ContextScope { current: None }
    }

    /// Whether a scope is entered.
    pub fn is_entered(&self) -> (r: bool)
        ensures
            r == self.current().is_some(),
    {
        self.current.is_some()
    }

    /// Leaves the scope and hands out its context, with everything that it
    /// recorded. Nothing happens when no scope is entered.
    pub fn leave(&mut self) -> (r: Option<StateContext>)
        ensures
            r == old(self).current(),
            final(self).current().is_none(),
    {
        let mut left: Option<StateContext> = None;
        core::mem::swap(&mut self.current, &mut left);
        left
    }

    /// Write access to the context of the running scope, if a scope is entered.
    pub fn current_mut(&mut self) -> (r: Option<&mut StateContext>)
        ensures
            r.is_some() == old(self).current().is_some(),
            r.is_some() ==> *r.unwrap() == old(self).current().unwrap()
                && final(self).current() == Some(*final(r.unwrap())),
            r.is_none() ==> final(self).current().is_none(),
    {
        match &mut self.current {
            Some(cx) => Some(cx),
            None => None,
        }
    }
}

/// Enters a scope with the context `cx`.
///
/// Entering a scope while another one is entered is a programming error:
/// the caller has to leave the running scope first.
pub fn enter_guarded(scope: &mut ContextScope, cx: StateContext)
    requires
        old(scope).current().is_none(),
    ensures
        final(scope).current() == Some(cx),
{
    scope.current = Some(cx);
}

/// Calls `func` with the context of the running scope.
///
/// Looking up the context outside of every scope is a programming error.
pub fn with_current_context<R, F: FnOnce(&StateContext) -> R>(scope: &ContextScope, func: F) -> (r: R)
    requires
        scope.current().is_some(),
        call_requires(func, (&scope.current().unwrap(),)),
    ensures
        call_ensures(func, (&scope.current().unwrap(),), r),
{
    match &scope.current {
        Some(cx) => func(cx),
        None => vstd::pervasive::unreached(),
    }
}

} // verus!
