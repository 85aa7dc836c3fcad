//! The change summary returned by every poll.

use vstd::prelude::*;

verus! {

/// The result type of every poll: `Pending` when nothing changed, `Ready` with
/// the summary otherwise.
#[verifier::external_type_specification]
pub struct ExPoll<T>(core::task::Poll<T>);

/// Bit of [`ComponentPollFlags::bits`] that stands for a state change.
pub const STATE_BIT: u32 = 1;

/// Bit of [`ComponentPollFlags::bits`] that stands for a stream event.
pub const STREAM_BIT: u32 = 2;

/// A set of independent change categories.
///
/// `state` is set when a tracked cell or a component changed, `stream` when a
/// stream cell produced a value. The empty set means that nothing changed.
#[derive(Clone, Copy, Debug, PartialEq, Eq, Structural)]
pub struct ComponentPollFlags {
    pub state: bool,
    pub stream: bool,
}

impl ComponentPollFlags {
    /// The summary with no category set.
    pub open spec fn spec_empty() -> Self {
        ComponentPollFlags { state: false, stream: false }
    }

    /// The summary with only the state category set.
    pub open spec fn spec_state() -> Self {
        ComponentPollFlags { state: true, stream: false }
    }

    /// The summary with only the stream category set.
    pub open spec fn spec_stream() -> Self {
        ComponentPollFlags { state: false, stream: true }
    }

    /// Whether no category is set.
    pub open spec fn spec_is_empty(self) -> bool {
        !self.state && !self.stream
    }

    /// Category-wise union.
    pub open spec fn spec_union(self, other: Self) -> Self {
        ComponentPollFlags {
            state: self.state || other.state,
            stream: self.stream || other.stream,
        }
    }

    /// Category-wise intersection.
    pub open spec fn spec_intersection(self, other: Self) -> Self {
        ComponentPollFlags {
            state: self.state && other.state,
            stream: self.stream && other.stream,
        }
    }

    /// Categories of `self` that are not in `other`.
    pub open spec fn spec_difference(self, other: Self) -> Self {
        ComponentPollFlags {
            state: self.state && !other.state,
            stream: self.stream && !other.stream,
        }
    }

    /// Whether every category of `other` is also in `self`.
    pub open spec fn spec_contains(self, other: Self) -> bool {
        (other.state ==> self.state) && (other.stream ==> self.stream)
    }

    /// The numeric encoding: the sum of the bits of the categories that are set.
    pub open spec fn spec_bits(self) -> int {
        (if self.state { 1int } else { 0int }) + (if self.stream { 2int } else { 0int })
    }

    #[verifier::when_used_as_spec(spec_empty)]
    pub fn empty() -> (r: Self)
        ensures
            r == Self::spec_empty(),
    {
        ComponentPollFlags { state: false, stream: false }
    }

    /// The state category alone.
    #[verifier::when_used_as_spec(spec_state)]
    pub fn state() -> (r: Self)
        ensures
            r == Self::spec_state(),
    {
        ComponentPollFlags { state: true, stream: false }
    }

    /// The stream category alone.
    #[verifier::when_used_as_spec(spec_stream)]
    pub fn stream() -> (r: Self)
        ensures
            r == Self::spec_stream(),
    {
        ComponentPollFlags { state: false, stream: true }
    }

    /// Both categories.
    pub fn all() -> (r: Self)
        ensures
            r.state && r.stream,
    {
        ComponentPollFlags { state: true, stream: true }
    }

    #[verifier::when_used_as_spec(spec_is_empty)]
    pub fn is_empty(self) -> (r: bool)
        ensures
            r == self.spec_is_empty(),
    {
        !self.state && !self.stream
    }

    /// Whether both categories are set.
    pub fn is_all(self) -> (r: bool)
        ensures
            r == (self.state && self.stream),
    {
        self.state && self.stream
    }

    #[verifier::when_used_as_spec(spec_contains)]
    pub fn contains(self, other: Self) -> (r: bool)
        ensures
            r == self.spec_contains(other),
    {
        (!other.state || self.state) && (!other.stream || self.stream)
    }

    /// Whether `self` and `other` share a category.
    pub fn intersects(self, other: Self) -> (r: bool)
        ensures
            r == !self.spec_intersection(other).spec_is_empty(),
    {
        (self.state && other.state) || (self.stream && other.stream)
    }

    #[verifier::when_used_as_spec(spec_union)]
    pub fn union(self, other: Self) -> (r: Self)
        ensures
            r == self.spec_union(other),
    {
        ComponentPollFlags {
            state: self.state || other.state,
            stream: self.stream || other.stream,
        }
    }

    #[verifier::when_used_as_spec(spec_intersection)]
    pub fn intersection(self, other: Self) -> (r: Self)
        ensures
            r == self.spec_intersection(other),
    {
        ComponentPollFlags {
            state: self.state && other.state,
            stream: self.stream && other.stream,
        }
    }

    #[verifier::when_used_as_spec(spec_difference)]
    pub fn difference(self, other: Self) -> (r: Self)
        ensures
            r == self.spec_difference(other),
    {
        ComponentPollFlags {
            state: self.state && !other.state,
            stream: self.stream && !other.stream,
        }
    }

    /// Adds the categories of `other`.
    pub fn insert(&mut self, other: Self)
        ensures
            *final(self) == old(self).spec_union(other),
    {
        self.state = self.state || other.state;
        self.stream = self.stream || other.stream;
    }

    /// Removes the categories of `other`.
    pub fn remove(&mut self, other: Self)
        ensures
            *final(self) == old(self).spec_difference(other),
    {
        self.state = self.state && !other.state;
        self.stream = self.stream && !other.stream;
    }

    /// The numeric encoding of the summary.
    pub fn bits(self) -> (r: u32)
        ensures
            r == self.spec_bits(),
    {
        let low: u32 = if self.state { STATE_BIT } else { 0 };
        let high: u32 = if self.stream { STREAM_BIT } else { 0 };
        low + high
    }

    /// Decodes a numeric encoding; `None` when a bit outside the two categories is set.
    pub fn from_bits(bits: u32) -> (r: Option<Self>)
        ensures
            bits <= 3 ==> r.is_some() && r.unwrap().spec_bits() == bits,
            bits > 3 ==> r.is_none(),
    {
        if bits > 3 {
            None
        } else {
            Some(ComponentPollFlags { state: bits == 1 || bits == 3, stream: bits >= 2 })
        }
    }

    /// Decodes a numeric encoding, ignoring every bit outside the two categories.
    pub fn from_bits_truncate(bits: u32) -> (r: Self)
        ensures
            r.spec_bits() == bits % 4,
    {
        let low: u32 = bits % 4;
        ComponentPollFlags { state: low == 1 || low == 3, stream: low >= 2 }
    }
}

/// What a poll returns for a summary: pending when it is empty, ready otherwise.
pub open spec fn poll_of(flags: ComponentPollFlags) -> core::task::Poll<ComponentPollFlags> {
    if flags.spec_is_empty() {
        core::task::Poll::Pending
    } else {
        core::task::Poll::Ready(flags)
    }
}

/// The summary that a poll result carries: empty for pending.
pub open spec fn flags_of(result: core::task::Poll<ComponentPollFlags>) -> ComponentPollFlags {
    match result {
        core::task::Poll::Ready(flags) => flags,
        core::task::Poll::Pending => ComponentPollFlags::spec_empty(),
    }
}

/// Turns a summary into a poll result.
pub fn into_poll(flags: ComponentPollFlags) -> (r: core::task::Poll<ComponentPollFlags>)
    ensures
        r == poll_of(flags),
{
    if flags.is_empty() {
        core::task::Poll::Pending
    } else {
        core::task::Poll::Ready(flags)
    }
}

/// Reads the summary out of a poll result.
pub fn from_poll(result: core::task::Poll<ComponentPollFlags>) -> (r: ComponentPollFlags)
    ensures
        r == flags_of(result),
{
    match result {
        core::task::Poll::Ready(flags) => flags,
        core::task::Poll::Pending => ComponentPollFlags::empty(),
    }
}

/// Union is commutative, associative and idempotent, and the empty summary is
/// its unit.
pub proof fn lemma_union_laws(a: ComponentPollFlags, b: ComponentPollFlags, c: ComponentPollFlags)
    ensures
        a.spec_union(b) == b.spec_union(a),
        a.spec_union(b).spec_union(c) == a.spec_union(b.spec_union(c)),
        a.spec_union(a) == a,
        a.spec_union(ComponentPollFlags::spec_empty()) == a,
        a.spec_union(b).spec_is_empty() <==> a.spec_is_empty() && b.spec_is_empty(),
{
}

} // verus!
