//! The wake signal: a notifier that turns many wakes into one.

use vstd::prelude::*;
use crate::context::{wake_seq, StateContext, WakeHandle};

verus! {

/// A coalescing notifier.
///
/// The signal is either scheduled or not, and holds the handle that was
/// registered last. A wake that finds the signal unscheduled schedules it and
/// invokes the registered handle; a wake that finds it scheduled does
/// nothing. The driver unschedules the signal right before it polls, so that
/// a wake that arrives during the poll schedules the signal again.
#[derive(Clone, Copy, Debug, PartialEq, Eq, Structural)]
pub struct WakeSignal {
    pub scheduled: bool,
    pub waker: Option<WakeHandle>,
}

impl WakeSignal {
    /// The signal after one wake.
    pub open spec fn woken(self) -> Self {
        WakeSignal { scheduled: true, waker: self.waker }
    }

    /// The handle that one wake invokes.
    pub open spec fn wake_invokes(self) -> Option<WakeHandle> {
        if self.scheduled {
            None
        } else {
            self.waker
        }
    }

    /// The signal after `n` wakes in a row.
    pub open spec fn woken_times(self, n: nat) -> Self
        decreases n,
    {
        if n == 0 {
            self
        } else {
            self.woken_times((n - 1) as nat).woken()
        }
    }

    /// The handles that `n` wakes in a row invoke, in order.
    pub open spec fn invoked_by(self, n: nat) -> Seq<WakeHandle>
        decreases n,
    {
        if n == 0 {
            Seq::empty()
        } else {
            self.invoked_by((n - 1) as nat) + wake_seq(
                self.woken_times((n - 1) as nat).wake_invokes(),
            )
        }
    }

    /// A signal with no handle registered. It starts scheduled, so that the
    /// driver's first poll takes place without a wake.
    pub fn new() -> (r: Self)
        ensures
            r == (WakeSignal { scheduled: true, waker: None }),
    {
        WakeSignal { scheduled: true, waker: None }
    }

    pub fn is_scheduled(&self) -> (r: bool)
        ensures
            r == self.scheduled,
    {
        self.scheduled
    }

    /// Stores `waker` as the handle that the next effective wake invokes, in
    /// place of the one stored before.
    pub fn register(&mut self, waker: WakeHandle)
        ensures
            *final(self) == (WakeSignal { scheduled: old(self).scheduled, waker: Some(waker) }),
    {
        self.waker = Some(waker);
    }

    /// Schedules the signal. Returns whether this wake is the one that
    /// scheduled it; if so, the registered handle was invoked.
    pub fn wake(&mut self, cx: &mut StateContext) -> (won: bool)
        ensures
            won == !old(self).scheduled,
            *final(self) == old(self).woken(),
            final(cx).waker() == old(cx).waker(),
            final(cx).woken() == old(cx).woken() + wake_seq(old(self).wake_invokes()),
    {
        if self.scheduled {
            assert(cx.woken() + Seq::<WakeHandle>::empty() =~= cx.woken());
            false
        } else {
            self.scheduled = true;
            cx.wake_if(self.waker);
            true
        }
    }

    /// Unschedules the signal, for the driver that is about to poll. Returns
    /// whether the signal was scheduled.
    pub fn begin_poll(&mut self) -> (was_scheduled: bool)
        ensures
            was_scheduled == old(self).scheduled,
            *final(self) == (WakeSignal { scheduled: false, waker: old(self).waker }),
    {
        let was_scheduled = self.scheduled;
        self.scheduled = false;
        was_scheduled
    }
}

/// Any number of wakes in a row invokes the registered handle at most once:
/// once if the signal was unscheduled, never if it was scheduled. After the
/// first wake the signal is scheduled and stays so.
pub proof fn lemma_wakes_coalesce(signal: WakeSignal, n: nat)
    requires
        n >= 1,
    ensures
        signal.woken_times(n) == signal.woken(),
        signal.invoked_by(n) == wake_seq(signal.wake_invokes()),
        signal.invoked_by(n).len() <= 1,
    decreases n,
{
    if n > 1 {
        lemma_wakes_coalesce(signal, (n - 1) as nat);
        assert(signal.invoked_by(n) =~= wake_seq(signal.wake_invokes()));
    } else {
        assert(signal.woken_times(0) == signal);
        assert(signal.invoked_by(0) =~= Seq::<WakeHandle>::empty());
        assert(signal.invoked_by(1) =~= wake_seq(signal.wake_invokes()));
    }
}

/// No wake is lost: a wake that follows the driver's unscheduling schedules
/// the signal again and invokes the registered handle.
pub proof fn lemma_wake_after_poll_is_kept(signal: WakeSignal)
    ensures
        (WakeSignal { scheduled: false, waker: signal.waker }).woken().scheduled,
        (WakeSignal { scheduled: false, waker: signal.waker }).wake_invokes() == signal.waker,
{
}

} // verus!
