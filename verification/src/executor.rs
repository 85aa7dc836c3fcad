//! The driver's side: one step of the loop that polls a root component.

use vstd::prelude::*;
use core::task::Poll;
use crate::component::AsyncComponent;
use crate::context::{wake_seq, StateContext, WakeHandle};
use crate::flags::{poll_of, ComponentPollFlags};
use crate::signal::WakeSignal;

verus! {

/// The event that the executor sends to its host loop to be polled again.
#[derive(Debug, Clone, Copy, PartialEq, Eq, Structural)]
#[non_exhaustive]
pub struct ExecutorPollEvent;

impl ExecutorPollEvent {
    /// The event, for whoever sends it to the host loop.
    pub fn new() -> Self {
        ExecutorPollEvent
    }
}

/// What the host loop reports to the driver.
#[derive(Debug, Clone, Copy, PartialEq, Eq, Structural)]
pub enum LoopEvent {
    /// All events of this turn were handed out: the time to poll.
    EventsCleared,
    /// The executor's own wake-up event came back.
    UserEvent(ExecutorPollEvent),
    /// Any other event, which is meant for the component alone.
    Other,
}

/// What the host loop is to do after a step.
#[derive(Debug, Clone, Copy, PartialEq, Eq, Structural)]
pub enum ControlFlow {
    /// Start the next turn at once.
    Poll,
    /// Sleep until an event arrives.
    Wait,
    /// Leave the loop.
    Exit,
}

/// Polls a root component on behalf of a host loop.
///
/// The executor hands its own handle to the tree. When that handle is
/// invoked, the executor's wake signal decides whether the host loop has to
/// be woken, by invoking the handle of the loop's proxy.
#[derive(Debug)]
pub struct Executor {
    signal: WakeSignal,
    handle: WakeHandle,
}

impl Executor {
    /// The executor's wake signal.
    pub closed spec fn signal(&self) -> WakeSignal {
        self.signal
    }

    /// The handle that the executor registers with the tree.
    pub closed spec fn handle(&self) -> WakeHandle {
        self.handle
    }

    /// An executor that registers `handle` with the tree and wakes its host
    /// loop through `proxy`. It starts scheduled.
    pub fn new(handle: WakeHandle, proxy: WakeHandle) -> (r: Self)
        ensures
            r.handle() == handle,
            r.signal() == (WakeSignal { scheduled: true, waker: Some(proxy) }),
    {
        let mut signal = WakeSignal::new();
        signal.register(proxy);
        Executor { signal, handle }
    }

    /// Whether a poll is due.
    pub fn is_scheduled(&self) -> (r: bool)
        ensures
            r == self.signal().scheduled,
    {
        self.signal.is_scheduled()
    }

    /// Wakes the executor: the host loop's proxy is invoked unless a poll is
    /// due already. Returns whether it was invoked.
    pub fn wake_by_ref(&mut self, cx: &mut StateContext) -> (fired: bool)
        ensures
            fired == !old(self).signal().scheduled,
            final(self).handle() == old(self).handle(),
            final(self).signal() == old(self).signal().woken(),
            final(cx).waker() == old(cx).waker(),
            final(cx).woken() == old(cx).woken() + wake_seq(old(self).signal().wake_invokes()),
    {
        self.signal.wake(cx)
    }

    /// Performs the invocations `wakes` that a tree recorded: each one of the
    /// executor's own handle wakes the executor. However many there are, the
    /// host loop's proxy is invoked at most once, and only if no poll was due.
    pub fn deliver(&mut self, wakes: &Vec<WakeHandle>, cx: &mut StateContext) -> (fired: bool)
        ensures
            fired == (wakes@.contains(old(self).handle()) && !old(self).signal().scheduled),
            final(self).handle() == old(self).handle(),
            final(self).signal() == (if wakes@.contains(old(self).handle()) {
                old(self).signal().woken()
            } else {
                old(self).signal()
            }),
            final(cx).waker() == old(cx).waker(),
            final(cx).woken() == old(cx).woken() + (if wakes@.contains(old(self).handle()) {
                wake_seq(old(self).signal().wake_invokes())
            } else {
                Seq::empty()
            }),
    {
        let mut fired = false;
        let mut index: usize = 0;
        assert(wakes@.take(0) =~= Seq::<WakeHandle>::empty());
        assert(cx.woken() + Seq::<WakeHandle>::empty() =~= cx.woken());
        while index < wakes.len()
            invariant
                index <= wakes@.len(),
                self.handle == old(self).handle,
                fired == (wakes@.take(index as int).contains(self.handle) && !old(
                    self,
                ).signal.scheduled),
                self.signal == (if wakes@.take(index as int).contains(self.handle) {
                    old(self).signal.woken()
                } else {
                    old(self).signal
                }),
                cx.waker() == old(cx).waker(),
                cx.woken() == old(cx).woken() + (if wakes@.take(index as int).contains(
                    self.handle,
                ) {
                    wake_seq(old(self).signal.wake_invokes())
                } else {
                    Seq::empty()
                }),
            decreases wakes@.len() - index,
        {
            let ghost before = wakes@.take(index as int);
            let ghost after = wakes@.take(index + 1);
            proof {
                assert(after =~= before.push(wakes@[index as int]));
                assert(after.contains(self.handle) <==> before.contains(self.handle)
                    || wakes@[index as int] == self.handle) by {
                    if before.contains(self.handle) {
                        let k = choose|k: int| 0 <= k < before.len() && before[k] == self.handle;
                        assert(after[k] == self.handle);
                    }
                    if wakes@[index as int] == self.handle {
                        assert(after[index as int] == self.handle);
                    }
                }
            }
            if wakes[index] == self.handle {
                let ghost woken_before = cx.woken();
                if self.signal.wake(cx) {
                    fired = true;
                } else {
                    assert(woken_before + Seq::<WakeHandle>::empty() =~= woken_before);
                }
                assert(cx.woken() =~= old(cx).woken() + wake_seq(old(self).signal.wake_invokes()));
            }
            index += 1;
        }
        assert(wakes@.take(wakes@.len() as int) =~= wakes@);
        fired
    }

    /// Polls `component` with the executor's handle. The wake signal is
    /// unscheduled right before the poll, so that a wake that arrives during
    /// or after the poll makes the next one due.
    pub fn poll_component<C: AsyncComponent>(
        &mut self,
        component: &mut C,
        cx: &mut StateContext,
    ) -> (r: Poll<ComponentPollFlags>)
        ensures
            r == poll_of(old(component).poll_flags()),
            old(component).polled(old(self).handle(), final(component)),
            final(self).handle() == old(self).handle(),
            final(self).signal() == (WakeSignal {
                scheduled: false,
                waker: old(self).signal().waker,
            }),
            final(cx).waker() == old(self).handle(),
            final(cx).woken() == old(cx).woken() + old(component).poll_wakes(),
    {
        self.signal.begin_poll();
        cx.set_waker(self.handle);
        component.poll_next(cx)
    }
}

/// What a step answers to the host loop for a poll result.
pub open spec fn flow_of(result: Poll<ComponentPollFlags>) -> ControlFlow {
    match result {
        Poll::Ready(_) => ControlFlow::Poll,
        Poll::Pending => ControlFlow::Wait,
    }
}

/// One step of the driver loop.
///
/// When the host loop has handed out all events of a turn, the root is
/// polled, unless the loop is `exiting`: a poll that reported something asks
/// for the next turn at once, a pending one lets the loop sleep. Every other
/// event leaves the executor and the component alone.
pub fn run<C: AsyncComponent>(
    executor: &mut Executor,
    component: &mut C,
    event: LoopEvent,
    exiting: bool,
    cx: &mut StateContext,
) -> (flow: ControlFlow)
    ensures
        final(executor).handle() == old(executor).handle(),
        event == LoopEvent::EventsCleared && !exiting ==> {
            &&& flow == flow_of(poll_of(old(component).poll_flags()))
            &&& old(component).polled(old(executor).handle(), final(component))
            &&& final(executor).signal() == (WakeSignal {
                scheduled: false,
                waker: old(executor).signal().waker,
            })
            &&& final(cx).waker() == old(executor).handle()
            &&& final(cx).woken() == old(cx).woken() + old(component).poll_wakes()
        },
        event != LoopEvent::EventsCleared || exiting ==> {
            &&& flow == (if event == LoopEvent::EventsCleared {
                ControlFlow::Exit
            } else {
                ControlFlow::Wait
            })
            &&& *final(component) == *old(component)
            &&& final(executor).signal() == old(executor).signal()
            &&& final(cx).waker() == old(cx).waker()
            &&& final(cx).woken() == old(cx).woken()
        },
{
    match event {
        LoopEvent::EventsCleared => {
            if exiting {
                ControlFlow::Exit
            } else {
                match executor.poll_component(component, cx) {
                    Poll::Ready(_) => ControlFlow::Poll,
                    Poll::Pending => ControlFlow::Wait,
                }
            }
        },
        _ => ControlFlow::Wait,
    }
}

} // verus!
