//! Stream cells: leaves that forward the values of an outside source.

use vstd::prelude::*;
use std::collections::VecDeque;
use crate::cell::State;
use crate::context::{StateContext, WakeHandle};

verus! {

/// A leaf that forwards discrete values from an outside source.
///
/// The cell owns the source and never looks into it: whoever drives the
/// source reaches it through [`StreamCell::source_mut`] and hands every value
/// that it yields to [`StreamCell::feed`]. A poll delivers the oldest value
/// that was fed and not yet delivered. The cell has no change marker: it has
/// something to report exactly when such a value waits.
#[derive(Debug)]
pub struct StreamCell<S, T> {
    inner: S,
    queue: VecDeque<T>,
}

impl<S, T> StreamCell<S, T> {
    /// The source that the cell owns.
    pub closed spec fn source(&self) -> S {
        self.inner
    }

    /// The values that were fed and not yet delivered, oldest first.
    pub closed spec fn queued(&self) -> Seq<T> {
        self.queue@
    }

    /// A cell around the source `inner`, with nothing to deliver yet.
    pub fn new(inner: S) -> (r: Self)
        ensures
            r.source() == inner,
            r.queued() == Seq::<T>::empty(),
    {
        StreamCell { inner, queue: VecDeque::new() }
    }

    /// Read access to the source.
    pub fn get(&self) -> (r: &S)
        ensures
            *r == self.source(),
    {
        &self.inner
    }

    /// Write access to the source, for whoever drives it.
    pub fn source_mut(&mut self) -> (r: &mut S)
        ensures
            *r == old(self).source(),
            final(self).source() == *final(r),
            final(self).queued() == old(self).queued(),
    {
        &mut self.inner
    }

    /// Takes in a value that the source yielded.
    pub fn feed(&mut self, value: T)
        ensures
            final(self).source() == old(self).source(),
            final(self).queued() == old(self).queued().push(value),
    {
        self.queue.push_back(value);
    }

    /// How many values wait to be delivered.
    pub fn pending(&self) -> (r: usize)
        ensures
            r == self.queued().len(),
    {
        self.queue.len()
    }

    /// Ends the cell and hands out its source. Values that were not
    /// delivered are dropped.
    pub fn into_inner(self) -> (r: S)
        ensures
            r == self.source(),
    {
        self.inner
    }
}

impl<S, T> State for StreamCell<S, T> {
    type Output = T;

    open spec fn next_output(&self) -> Option<T> {
        if self.queued().len() > 0 {
            Some(self.queued().first())
        } else {
            None
        }
    }

    open spec fn updated(&self, waker: WakeHandle, post: &Self) -> bool {
        &&& post.source() == self.source()
        &&& post.queued() == (if self.queued().len() > 0 {
            self.queued().drop_first()
        } else {
            self.queued()
        })
    }

    fn update(this: &mut Self, cx: &StateContext) -> (r: Option<T>) {
        let next = this.queue.pop_front();
        proof {
            if old(this).queued().len() > 0 {
                assert(this.queue@ =~= old(this).queued().drop_first());
            }
        }
        next
    }
}

} // verus!
