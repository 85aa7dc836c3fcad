//! Composites: nodes that aggregate a fixed, ordered list of registered
//! children.

use vstd::prelude::*;
use core::task::Poll;
use crate::cell::{structural_flags, State, StateCell};
use crate::component::AsyncComponent;
use crate::context::{wake_seq, StateContext, WakeHandle};
use crate::flags::{from_poll, into_poll, ComponentPollFlags};
use crate::stream::StreamCell;

verus! {

/// Names a callback that was registered with a composite.
#[derive(Clone, Copy, Debug, PartialEq, Eq, Structural, Hash)]
pub struct CallbackId {
    pub id: u64,
}

/// The role of a registered child. A poll visits the children role by role:
/// components first, then tracked cells, then stream cells.
#[derive(Clone, Copy, Debug, PartialEq, Eq, Structural)]
pub enum Role {
    Component,
    State,
    Stream,
}

/// A child of a composite.
#[derive(Debug)]
pub enum Child<C, V, S, T> {
    /// A nested component.
    Component(C),
    /// A tracked cell.
    State(StateCell<V>),
    /// A stream cell.
    Stream(StreamCell<S, T>),
}

/// One entry of a composite's registration list.
#[derive(Debug)]
pub struct Field<C, V, S, T> {
    /// The child.
    pub child: Child<C, V, S, T>,
    /// The callback to invoke when the child reports something.
    pub callback: Option<CallbackId>,
}

/// One callback invocation that a poll decided on.
#[derive(Debug, PartialEq, Eq)]
pub enum Invocation<T> {
    /// A nested component reported `flags`.
    Component { callback: CallbackId, flags: ComponentPollFlags },
    /// A tracked cell changed.
    State { callback: CallbackId },
    /// A stream cell delivered `payload`.
    Stream { callback: CallbackId, payload: T },
    /// The composite as a whole reports `flags`.
    Aggregate { callback: CallbackId, flags: ComponentPollFlags },
}

impl<T> Invocation<T> {
    /// The place of the invocation's kind in the order of one poll.
    pub open spec fn rank(self) -> int {
        match self {
            Invocation::Component { .. } => 0,
            Invocation::State { .. } => 1,
            Invocation::Stream { .. } => 2,
            Invocation::Aggregate { .. } => 3,
        }
    }
}

/// The place of a role in the order of one poll.
pub open spec fn role_rank(role: Role) -> int {
    match role {
        Role::Component => 0,
        Role::State => 1,
        Role::Stream => 2,
    }
}

impl<C, V, S, T> Child<C, V, S, T> {
    /// The role of the child.
    pub open spec fn role(self) -> Role {
        match self {
            Child::Component(_) => Role::Component,
            Child::State(_) => Role::State,
            Child::Stream(_) => Role::Stream,
        }
    }
}

/// The invocations for the payloads that a stream cell delivers, oldest first.
pub open spec fn stream_calls<T>(callback: Option<CallbackId>, payloads: Seq<T>) -> Seq<
    Invocation<T>,
> {
    match callback {
        Some(callback) => Seq::new(
            payloads.len(),
            |i: int| Invocation::Stream { callback, payload: payloads[i] },
        ),
        None => Seq::empty(),
    }
}

/// What `field` adds to the summary in the pass over the children of `role`.
pub open spec fn field_flags<C: AsyncComponent, V, S, T>(
    field: Field<C, V, S, T>,
    role: Role,
) -> ComponentPollFlags {
    match (role, field.child) {
        (Role::Component, Child::Component(component)) => component.poll_flags(),
        (Role::State, Child::State(cell)) => structural_flags(cell.status()),
        (Role::Stream, Child::Stream(cell)) => if cell.queued().len() > 0 {
            ComponentPollFlags::spec_stream()
        } else {
            ComponentPollFlags::spec_empty()
        },
        _ => ComponentPollFlags::spec_empty(),
    }
}

/// The invocations that `field` causes in the pass over the children of `role`.
pub open spec fn field_calls<C: AsyncComponent, V, S, T>(
    field: Field<C, V, S, T>,
    role: Role,
) -> Seq<Invocation<T>> {
    match (role, field.child, field.callback) {
        (Role::Component, Child::Component(component), Some(callback)) => if component.poll_flags().spec_is_empty() {
            Seq::empty()
        } else {
            seq![Invocation::Component { callback, flags: component.poll_flags() }]
        },
        (Role::State, Child::State(cell), Some(callback)) => if cell.status().reports() {
            seq![Invocation::State { callback }]
        } else {
            Seq::empty()
        },
        (Role::Stream, Child::Stream(cell), _) => stream_calls(field.callback, cell.queued()),
        _ => Seq::empty(),
    }
}

/// The handles that polling `field` invokes.
pub open spec fn field_poll_wakes<C: AsyncComponent, V, S, T>(
    field: Field<C, V, S, T>,
    role: Role,
) -> Seq<WakeHandle> {
    match (role, field.child) {
        (Role::Component, Child::Component(component)) => component.poll_wakes(),
        _ => Seq::empty(),
    }
}

/// The handles that releasing `field` invokes.
pub open spec fn field_release_wakes<C: AsyncComponent, V, S, T>(
    field: Field<C, V, S, T>,
) -> Seq<WakeHandle> {
    match field.child {
        Child::Component(component) => component.release_wakes(),
        Child::State(cell) => wake_seq(cell.status().registered()),
        Child::Stream(_) => Seq::empty(),
    }
}

/// Whether `post` is `pre` after the pass over the children of `role`, which
/// polls the children of that role and leaves the others alone.
pub open spec fn pass_done<C: AsyncComponent, V, S, T>(
    pre: Field<C, V, S, T>,
    post: Field<C, V, S, T>,
    waker: WakeHandle,
    role: Role,
) -> bool {
    match (role, pre.child) {
        (Role::Component, Child::Component(component)) => {
            &&& post.callback == pre.callback
            &&& post.child is Component
            &&& component.polled(waker, &post.child->Component_0)
        },
        (Role::State, Child::State(cell)) => {
            &&& post.callback == pre.callback
            &&& post.child == Child::<C, V, S, T>::State(cell.refreshed(waker))
        },
        (Role::Stream, Child::Stream(cell)) => {
            &&& post.callback == pre.callback
            &&& post.child is Stream
            &&& post.child->Stream_0.source() == cell.source()
            &&& post.child->Stream_0.queued() == Seq::<T>::empty()
        },
        _ => post == pre,
    }
}

/// Whether `post` is `pre` after one poll of the composite that holds it.
pub open spec fn field_polled<C: AsyncComponent, V, S, T>(
    pre: Field<C, V, S, T>,
    post: Field<C, V, S, T>,
    waker: WakeHandle,
) -> bool {
    pass_done(pre, post, waker, pre.child.role())
}

/// The summary of the pass over the children of `role`.
pub open spec fn pass_flags<C: AsyncComponent, V, S, T>(
    fields: Seq<Field<C, V, S, T>>,
    role: Role,
) -> ComponentPollFlags
    decreases fields.len(),
{
    if fields.len() == 0 {
        ComponentPollFlags::spec_empty()
    } else {
        pass_flags(fields.drop_last(), role).spec_union(field_flags(fields.last(), role))
    }
}

/// The invocations of the pass over the children of `role`, in order.
pub open spec fn pass_calls<C: AsyncComponent, V, S, T>(
    fields: Seq<Field<C, V, S, T>>,
    role: Role,
) -> Seq<Invocation<T>>
    decreases fields.len(),
{
    if fields.len() == 0 {
        Seq::empty()
    } else {
        pass_calls(fields.drop_last(), role) + field_calls(fields.last(), role)
    }
}

/// The handles that the pass over the children of `role` invokes, in order.
pub open spec fn pass_wakes<C: AsyncComponent, V, S, T>(
    fields: Seq<Field<C, V, S, T>>,
    role: Role,
) -> Seq<WakeHandle>
    decreases fields.len(),
{
    if fields.len() == 0 {
        Seq::empty()
    } else {
        pass_wakes(fields.drop_last(), role) + field_poll_wakes(fields.last(), role)
    }
}

/// The handles that releasing every field, first to last, invokes.
pub open spec fn fields_release_wakes<C: AsyncComponent, V, S, T>(
    fields: Seq<Field<C, V, S, T>>,
) -> Seq<WakeHandle>
    decreases fields.len(),
{
    if fields.len() == 0 {
        Seq::empty()
    } else {
        fields_release_wakes(fields.drop_last()) + field_release_wakes(fields.last())
    }
}

/// How many tracked cells are among `fields`.
pub open spec fn count_states<C, V, S, T>(fields: Seq<Field<C, V, S, T>>) -> nat
    decreases fields.len(),
{
    if fields.len() == 0 {
        0
    } else {
        count_states(fields.drop_last()) + (if fields.last().child is State {
            1nat
        } else {
            0nat
        })
    }
}

/// The invocation of the composite's own callback: one, after all others, when
/// the summary is not empty and a callback is registered.
pub open spec fn aggregate_calls<T>(
    on_change: Option<CallbackId>,
    flags: ComponentPollFlags,
) -> Seq<Invocation<T>> {
    match on_change {
        Some(callback) => if flags.spec_is_empty() {
            Seq::empty()
        } else {
            seq![Invocation::Aggregate { callback, flags }]
        },
        None => Seq::empty(),
    }
}

/// The summary that polling a composite with these fields reports.
pub open spec fn fields_flags<C: AsyncComponent, V, S, T>(
    fields: Seq<Field<C, V, S, T>>,
) -> ComponentPollFlags {
    pass_flags(fields, Role::Component).spec_union(pass_flags(fields, Role::State)).spec_union(
        pass_flags(fields, Role::Stream),
    )
}

/// The invocations that polling a composite with these fields decides on:
/// those for nested components, then those for tracked cells, then those for
/// stream cells, then the composite's own.
pub open spec fn fields_calls<C: AsyncComponent, V, S, T>(
    fields: Seq<Field<C, V, S, T>>,
    on_change: Option<CallbackId>,
) -> Seq<Invocation<T>> {
    pass_calls(fields, Role::Component) + pass_calls(fields, Role::State) + pass_calls(
        fields,
        Role::Stream,
    ) + aggregate_calls(on_change, fields_flags(fields))
}

/// Whether `post` is `fields` after one poll.
pub open spec fn fields_polled<C: AsyncComponent, V, S, T>(
    fields: Seq<Field<C, V, S, T>>,
    waker: WakeHandle,
    post: Seq<Field<C, V, S, T>>,
) -> bool {
    &&& post.len() == fields.len()
    &&& forall|i: int| 0 <= i < fields.len() ==> #[trigger] field_polled(fields[i], post[i], waker)
}

/// Whether `post` is `fields` after the pass over the children of `role`.
pub open spec fn pass_applied<C: AsyncComponent, V, S, T>(
    fields: Seq<Field<C, V, S, T>>,
    post: Seq<Field<C, V, S, T>>,
    waker: WakeHandle,
    role: Role,
) -> bool {
    &&& post.len() == fields.len()
    &&& forall|i: int| 0 <= i < fields.len() ==> #[trigger] pass_done(fields[i], post[i], waker, role)
}

/// A pass leaves alone what the passes over the other roles read.
pub proof fn lemma_pass_keeps_other_roles<C: AsyncComponent, V, S, T>(
    fields: Seq<Field<C, V, S, T>>,
    post: Seq<Field<C, V, S, T>>,
    waker: WakeHandle,
    done: Role,
    other: Role,
)
    requires
        done != other,
        pass_applied(fields, post, waker, done),
    ensures
        pass_flags(post, other) == pass_flags(fields, other),
        pass_calls(post, other) == pass_calls(fields, other),
        pass_wakes(post, other) == pass_wakes(fields, other),
    decreases fields.len(),
{
    if fields.len() > 0 {
        let last = fields.len() - 1;
        assert(pass_done(fields[last], post[last], waker, done));
        assert forall|i: int| 0 <= i < fields.drop_last().len() implies #[trigger] pass_done(
            fields.drop_last()[i],
            post.drop_last()[i],
            waker,
            done,
        ) by {
            assert(pass_done(fields[i], post[i], waker, done));
        }
        lemma_pass_keeps_other_roles(fields.drop_last(), post.drop_last(), waker, done, other);
    }
}

/// Every invocation of a pass has the rank of the pass's role.
pub proof fn lemma_pass_calls_rank<C: AsyncComponent, V, S, T>(
    fields: Seq<Field<C, V, S, T>>,
    role: Role,
)
    ensures
        forall|i: int|
            0 <= i < pass_calls(fields, role).len() ==> (#[trigger] pass_calls(fields, role)[i]).rank()
                == role_rank(role),
    decreases fields.len(),
{
    if fields.len() > 0 {
        lemma_pass_calls_rank(fields.drop_last(), role);
        let front = pass_calls(fields.drop_last(), role);
        let tail = field_calls(fields.last(), role);
        let calls = pass_calls(fields, role);
        assert(calls == front + tail);
        assert forall|i: int| 0 <= i < calls.len() implies (#[trigger] calls[i]).rank()
            == role_rank(role) by {
            if i < front.len() {
                assert(calls[i] == front[i]);
            } else {
                assert(calls[i] == tail[i - front.len()]);
            }
        }
    }
}

/// A node that aggregates a fixed, ordered list of registered children.
///
/// A poll visits the nested components in registration order, then the
/// tracked cells, then the stream cells, each of which it drains. For every
/// child that reports something and has a callback, it records an
/// [`Invocation`]; when anything was reported at all, it records one more for
/// the composite's own callback. The recorded invocations are handed out, in
/// the order in which they are to be performed, by [`Composite::take_calls`].
#[derive(Debug)]
pub struct Composite<C, V, S, T> {
    fields: Vec<Field<C, V, S, T>>,
    on_change: Option<CallbackId>,
    calls: Vec<Invocation<T>>,
}

/// Collects the registration list of a [`Composite`].
#[derive(Debug)]
pub struct CompositeBuilder<C, V, S, T> {
    fields: Vec<Field<C, V, S, T>>,
    on_change: Option<CallbackId>,
}

impl<C: AsyncComponent, V, S, T> CompositeBuilder<C, V, S, T> {
    /// The fields registered so far, in registration order.
    pub closed spec fn fields(&self) -> Seq<Field<C, V, S, T>> {
        self.fields@
    }

    /// The composite's own callback.
    pub closed spec fn on_change(&self) -> Option<CallbackId> {
        self.on_change
    }

    /// An empty registration list.
    pub fn new() -> (r: Self)
        ensures
            r.fields() == Seq::<Field<C, V, S, T>>::empty(),
            r.on_change().is_none(),
    {
        CompositeBuilder { fields: Vec::new(), on_change: None }
    }

    /// Registers `child` with its `callback` at the end of the list.
    pub fn field(self, child: Child<C, V, S, T>, callback: Option<CallbackId>) -> (r: Self)
        ensures
            r.fields() == self.fields().push(Field { child, callback }),
            r.on_change() == self.on_change(),
    {
        let mut builder = self;
        builder.fields.push(Field { child, callback });
        builder
    }

    /// Registers a nested component.
    pub fn component(self, component: C, callback: Option<CallbackId>) -> (r: Self)
        ensures
            r.fields() == self.fields().push(
                Field { child: Child::Component(component), callback },
            ),
            r.on_change() == self.on_change(),
    {
        self.field(Child::Component(component), callback)
    }

    /// Registers a tracked cell.
    pub fn state(self, cell: StateCell<V>, callback: Option<CallbackId>) -> (r: Self)
        ensures
            r.fields() == self.fields().push(Field { child: Child::State(cell), callback }),
            r.on_change() == self.on_change(),
    {
        self.field(Child::State(cell), callback)
    }

    /// Registers a stream cell.
    pub fn stream(self, cell: StreamCell<S, T>, callback: Option<CallbackId>) -> (r: Self)
        ensures
            r.fields() == self.fields().push(Field { child: Child::Stream(cell), callback }),
            r.on_change() == self.on_change(),
    {
        self.field(Child::Stream(cell), callback)
    }

    /// Registers the composite's own callback, in place of an earlier one.
    pub fn on_any_change(self, callback: CallbackId) -> (r: Self)
        ensures
            r.fields() == self.fields(),
            r.on_change() == Some(callback),
    {
        let mut builder = self;
        builder.on_change = Some(callback);
        builder
    }

    /// Whether a tracked cell is registered, as [`CompositeBuilder::build`] demands.
    pub fn has_state(&self) -> (r: bool)
        ensures
            r == (count_states(self.fields()) > 0),
    {
        let mut index: usize = 0;
        let mut found = false;
        assert(self.fields@.take(0) =~= Seq::<Field<C, V, S, T>>::empty());
        while index < self.fields.len()
            invariant
                index <= self.fields@.len(),
                found == (count_states(self.fields@.take(index as int)) > 0),
            decreases self.fields@.len() - index,
        {
            proof {
                assert(self.fields@.take(index + 1).drop_last() =~= self.fields@.take(
                    index as int,
                ));
            }
            match &self.fields[index].child {
                Child::State(_) => {
                    found = true;
                },
                _ => {},
            }
            index += 1;
        }
        assert(self.fields@.take(self.fields@.len() as int) =~= self.fields@);
        found
    }

    /// The composite with the registered fields.
    ///
    /// A composite has at least one tracked cell: a registration list without
    /// one is not accepted.
    pub fn build(self) -> (r: Composite<C, V, S, T>)
        requires
            count_states(self.fields()) > 0,
        ensures
            r.fields() == self.fields(),
            r.on_change() == self.on_change(),
            r.calls() == Seq::<Invocation<T>>::empty(),
    {
        Composite { fields: self.fields, on_change: self.on_change, calls: Vec::new() }
    }
}

/// Delivers every value that waits in `cell`, oldest first, and records an
/// invocation of `callback` for each.
fn drain_stream<S, T>(
    cell: &mut StreamCell<S, T>,
    callback: Option<CallbackId>,
    calls: &mut Vec<Invocation<T>>,
    cx: &StateContext,
) -> (any: bool)
    ensures
        any == (old(cell).queued().len() > 0),
        final(cell).source() == old(cell).source(),
        final(cell).queued() == Seq::<T>::empty(),
        final(calls)@ == old(calls)@ + stream_calls(callback, old(cell).queued()),
{
    let ghost all = cell.queued();
    let ghost mut done: int = 0;
    let mut any = false;
    assert(all.skip(0) =~= all);
    assert(calls@ =~= old(calls)@ + stream_calls(callback, all.take(0)));
    while cell.pending() > 0
        invariant
            0 <= done <= all.len(),
            any == (done > 0),
            cell.source() == old(cell).source(),
            cell.queued() == all.skip(done),
            calls@ == old(calls)@ + stream_calls(callback, all.take(done)),
        decreases all.len() - done,
    {
        let delivered = StreamCell::update(cell, cx);
        let payload = delivered.unwrap();
        assert(payload == all[done]);
        proof {
            assert(all.skip(done).drop_first() =~= all.skip(done + 1));
        }
        match callback {
            Some(callback) => {
                calls.push(Invocation::Stream { callback, payload });
                assert(calls@ =~= old(calls)@ + stream_calls(Some(callback), all.take(done + 1)));
            },
            None => {},
        }
        any = true;
        proof {
            done = done + 1;
        }
    }
    assert(all.take(all.len() as int) =~= all);
    assert(cell.queued() =~= Seq::<T>::empty());
    any
}

impl<C: AsyncComponent, V, S, T> Composite<C, V, S, T> {
    /// The fields, in registration order.
    pub closed spec fn fields(&self) -> Seq<Field<C, V, S, T>> {
        self.fields@
    }

    /// The composite's own callback.
    pub closed spec fn on_change(&self) -> Option<CallbackId> {
        self.on_change
    }

    /// The invocations that were decided on and not yet handed out, oldest first.
    pub closed spec fn calls(&self) -> Seq<Invocation<T>> {
        self.calls@
    }

    /// How many fields are registered.
    pub fn len(&self) -> (r: usize)
        ensures
            r == self.fields().len(),
    {
        self.fields.len()
    }

    /// The role of the field at `index`, if there is one.
    pub fn role(&self, index: usize) -> (r: Option<Role>)
        ensures
            r == (if index < self.fields().len() {
                Some(self.fields()[index as int].child.role())
            } else {
                None
            }),
    {
        if index < self.fields.len() {
            match &self.fields[index].child {
                Child::Component(_) => Some(Role::Component),
                Child::State(_) => Some(Role::State),
                Child::Stream(_) => Some(Role::Stream),
            }
        } else {
            None
        }
    }

    /// Read access to the field at `index`, if there is one.
    pub fn get(&self, index: usize) -> (r: Option<&Field<C, V, S, T>>)
        ensures
            r.is_some() == (index < self.fields().len()),
            r.is_some() ==> *r.unwrap() == self.fields()[index as int],
    {
        if index < self.fields.len() {
            Some(&self.fields[index])
        } else {
            None
        }
    }

    /// Write access to the child at `index`, if there is one. Which children
    /// the composite has, and their callbacks, cannot be changed this way.
    pub fn child_mut(&mut self, index: usize) -> (r: Option<&mut Child<C, V, S, T>>)
        ensures
            final(self).on_change() == old(self).on_change(),
            final(self).calls() == old(self).calls(),
            r.is_some() == (index < old(self).fields().len()),
            r.is_some() ==> *r.unwrap() == old(self).fields()[index as int].child
                && final(self).fields() == old(self).fields().update(
                index as int,
                Field {
                    child: *final(r.unwrap()),
                    callback: old(self).fields()[index as int].callback,
                },
            ),
            r.is_none() ==> final(self).fields() == old(self).fields(),
    {
        if index < self.fields.len() {
            Some(&mut self.fields[index].child)
        } else {
            None
        }
    }

    /// How many invocations wait to be handed out.
    pub fn pending_calls(&self) -> (r: usize)
        ensures
            r == self.calls().len(),
    {
        self.calls.len()
    }

    /// Hands out the invocations that polls decided on, in the order in which
    /// they are to be performed.
    pub fn take_calls(&mut self) -> (r: Vec<Invocation<T>>)
        ensures
            r@ == old(self).calls(),
            final(self).calls() == Seq::<Invocation<T>>::empty(),
            final(self).fields() == old(self).fields(),
            final(self).on_change() == old(self).on_change(),
    {
        let mut out: Vec<Invocation<T>> = Vec::new();
        core::mem::swap(&mut self.calls, &mut out);
        out
    }

    /// Polls the children of `role`, in registration order.
    fn run_pass(&mut self, role: Role, cx: &mut StateContext) -> (flags: ComponentPollFlags)
        ensures
            flags == pass_flags(old(self).fields(), role),
            pass_applied(old(self).fields(), final(self).fields(), old(cx).waker(), role),
            final(self).on_change() == old(self).on_change(),
            final(self).calls() == old(self).calls() + pass_calls(old(self).fields(), role),
            final(cx).waker() == old(cx).waker(),
            final(cx).woken() == old(cx).woken() + pass_wakes(old(self).fields(), role),
    {
        let ghost all = self.fields@;
        let ghost waker = cx.waker();
        let mut result = ComponentPollFlags::empty();
        let mut index: usize = 0;
        proof {
            assert(all.take(0) =~= Seq::<Field<C, V, S, T>>::empty());
            assert(self.calls@ =~= old(self).calls() + pass_calls(all.take(0), role));
            assert(cx.woken() =~= old(cx).woken() + pass_wakes(all.take(0), role));
        }
        while index < self.fields.len()
            invariant
                index <= all.len(),
                all == old(self).fields(),
                waker == old(cx).waker(),
                self.fields@.len() == all.len(),
                self.on_change == old(self).on_change,
                forall|i: int| 0 <= i < index ==> #[trigger] pass_done(all[i], self.fields@[i], waker, role),
                forall|i: int| index <= i < all.len() ==> self.fields@[i] == all[i],
                result == pass_flags(all.take(index as int), role),
                self.calls@ == old(self).calls() + pass_calls(all.take(index as int), role),
                cx.waker() == waker,
                cx.woken() == old(cx).woken() + pass_wakes(all.take(index as int), role),
            decreases all.len() - index,
        {
            proof {
                assert(all.take(index + 1).drop_last() =~= all.take(index as int));
                assert(all.take(index + 1).last() == all[index as int]);
            }
            let ghost before_calls = self.calls@;
            let ghost before_woken = cx.woken();
            let callback = self.fields[index].callback;
            match &mut self.fields[index].child {
                Child::Component(component) => {
                    if let Role::Component = role {
                        let reported = from_poll(component.poll_next(cx));
                        if !reported.is_empty() {
                            result.insert(reported);
                            if let Some(callback) = callback {
                                self.calls.push(
                                    Invocation::Component { callback, flags: reported },
                                );
                            }
                        }
                    }
                },
                Child::State(cell) => {
                    if let Role::State = role {
                        if StateCell::refresh(cell, cx) {
                            result.insert(ComponentPollFlags::state());
                            if let Some(callback) = callback {
                                self.calls.push(Invocation::State { callback });
                            }
                        }
                    }
                },
                Child::Stream(cell) => {
                    if let Role::Stream = role {
                        if drain_stream(cell, callback, &mut self.calls, cx) {
                            result.insert(ComponentPollFlags::stream());
                        }
                    }
                },
            }
            proof {
                assert(self.calls@ =~= before_calls + field_calls(all[index as int], role));
                assert(cx.woken() =~= before_woken + field_poll_wakes(all[index as int], role));
                assert(pass_done(all[index as int], self.fields@[index as int], waker, role));
            }
            index += 1;
        }
        assert(all.take(all.len() as int) =~= all);
        result
    }
}

impl<C: AsyncComponent, V, S, T> AsyncComponent for Composite<C, V, S, T> {
    open spec fn poll_flags(&self) -> ComponentPollFlags {
        fields_flags(self.fields())
    }

    open spec fn poll_wakes(&self) -> Seq<WakeHandle> {
        pass_wakes(self.fields(), Role::Component)
    }

    open spec fn polled(&self, waker: WakeHandle, post: &Self) -> bool {
        &&& fields_polled(self.fields(), waker, post.fields())
        &&& post.on_change() == self.on_change()
        &&& post.calls() == self.calls() + fields_calls(self.fields(), self.on_change())
    }

    open spec fn release_wakes(&self) -> Seq<WakeHandle> {
        fields_release_wakes(self.fields())
    }

    fn poll_next(&mut self, cx: &mut StateContext) -> (r: Poll<ComponentPollFlags>) {
        let ghost first = self.fields@;
        let ghost waker = cx.waker();
        let mut result = self.run_pass(Role::Component, cx);
        let ghost second = self.fields@;
        let states = self.run_pass(Role::State, cx);
        result.insert(states);
        let ghost third = self.fields@;
        let streams = self.run_pass(Role::Stream, cx);
        result.insert(streams);
        proof {
            lemma_pass_keeps_other_roles(first, second, waker, Role::Component, Role::State);
            lemma_pass_keeps_other_roles(first, second, waker, Role::Component, Role::Stream);
            lemma_pass_keeps_other_roles(second, third, waker, Role::State, Role::Stream);
            lemma_pass_wakes_of_leaves(second, Role::State);
            lemma_pass_wakes_of_leaves(third, Role::Stream);
            assert forall|i: int| 0 <= i < first.len() implies #[trigger] field_polled(
                first[i],
                self.fields@[i],
                waker,
            ) by {
                assert(pass_done(first[i], second[i], waker, Role::Component));
                assert(pass_done(second[i], third[i], waker, Role::State));
                assert(pass_done(third[i], self.fields@[i], waker, Role::Stream));
            }
            assert(cx.woken() =~= old(cx).woken() + pass_wakes(first, Role::Component));
        }
        if !result.is_empty() {
            if let Some(callback) = self.on_change {
                self.calls.push(Invocation::Aggregate { callback, flags: result });
            }
        }
        assert(self.calls@ =~= old(self).calls() + fields_calls(first, old(self).on_change()));
        into_poll(result)
    }

    fn release(self, cx: &mut StateContext) {
        let ghost all = self.fields@;
        let mut rest = self.fields;
        let mut stack: Vec<Field<C, V, S, T>> = Vec::new();
        while rest.len() > 0
            invariant
                rest@.len() + stack@.len() == all.len(),
                forall|i: int| 0 <= i < rest@.len() ==> rest@[i] == all[i],
                forall|i: int| 0 <= i < stack@.len() ==> stack@[i] == all[all.len() - 1 - i],
            decreases rest@.len(),
        {
            let field = rest.pop().unwrap();
            stack.push(field);
        }
        assert(all.take(0) =~= Seq::<Field<C, V, S, T>>::empty());
        assert(cx.woken() =~= cx.woken() + fields_release_wakes(all.take(0)));
        while stack.len() > 0
            invariant
                stack@.len() <= all.len(),
                forall|i: int| 0 <= i < stack@.len() ==> stack@[i] == all[all.len() - 1 - i],
                cx.waker() == old(cx).waker(),
                cx.woken() == old(cx).woken() + fields_release_wakes(
                    all.take(all.len() - stack@.len()),
                ),
            decreases stack@.len(),
        {
            let ghost done = all.len() - stack@.len();
            let ghost before = cx.woken();
            let field = stack.pop().unwrap();
            assert(field == all[done]);
            assert(all.take(done + 1).drop_last() =~= all.take(done));
            assert(all.take(done + 1).last() == field);
            match field.child {
                Child::Component(component) => {
                    component.release(cx);
                },
                Child::State(cell) => {
                    let _ = cell.release(cx);
                },
                Child::Stream(_) => {
                    assert(before + Seq::<WakeHandle>::empty() =~= before);
                },
            }
        }
        assert(all.take(all.len() as int) =~= all);
    }
}

/// Only the pass over the nested components invokes handles.
pub proof fn lemma_pass_wakes_of_leaves<C: AsyncComponent, V, S, T>(
    fields: Seq<Field<C, V, S, T>>,
    role: Role,
)
    requires
        role != Role::Component,
    ensures
        pass_wakes(fields, role) == Seq::<WakeHandle>::empty(),
    decreases fields.len(),
{
    if fields.len() > 0 {
        lemma_pass_wakes_of_leaves(fields.drop_last(), role);
    }
}

/// A poll changes no registration: the composite has the same fields
/// afterwards, each with the role and the callback that it had, and so as
/// many tracked cells as before.
pub proof fn lemma_poll_keeps_registration<C: AsyncComponent, V, S, T>(
    fields: Seq<Field<C, V, S, T>>,
    waker: WakeHandle,
    post: Seq<Field<C, V, S, T>>,
)
    requires
        fields_polled(fields, waker, post),
    ensures
        post.len() == fields.len(),
        forall|i: int|
            0 <= i < fields.len() ==> (#[trigger] post[i]).child.role() == fields[i].child.role()
                && post[i].callback == fields[i].callback,
        count_states(post) == count_states(fields),
    decreases fields.len(),
{
    assert forall|i: int| 0 <= i < fields.len() implies (#[trigger] post[i]).child.role()
        == fields[i].child.role() && post[i].callback == fields[i].callback by {
        assert(field_polled(fields[i], post[i], waker));
    }
    if fields.len() > 0 {
        assert forall|i: int| 0 <= i < fields.drop_last().len() implies #[trigger] field_polled(
            fields.drop_last()[i],
            post.drop_last()[i],
            waker,
        ) by {
            assert(field_polled(fields[i], post[i], waker));
        }
        lemma_poll_keeps_registration(fields.drop_last(), waker, post.drop_last());
        assert(field_polled(fields[fields.len() - 1], post[fields.len() - 1], waker));
    }
}

/// After a poll the leaves are quiet: until a tracked cell is marked or a
/// stream cell is fed, the passes over them report nothing and decide on no
/// invocation.
pub proof fn lemma_leaves_report_once<C: AsyncComponent, V, S, T>(
    fields: Seq<Field<C, V, S, T>>,
    waker: WakeHandle,
    post: Seq<Field<C, V, S, T>>,
)
    requires
        fields_polled(fields, waker, post),
    ensures
        pass_flags(post, Role::State).spec_is_empty(),
        pass_flags(post, Role::Stream).spec_is_empty(),
        pass_calls(post, Role::State) == Seq::<Invocation<T>>::empty(),
        pass_calls(post, Role::Stream) == Seq::<Invocation<T>>::empty(),
    decreases fields.len(),
{
    if fields.len() > 0 {
        let last = fields.len() - 1;
        assert forall|i: int| 0 <= i < fields.drop_last().len() implies #[trigger] field_polled(
            fields.drop_last()[i],
            post.drop_last()[i],
            waker,
        ) by {
            assert(field_polled(fields[i], post[i], waker));
        }
        lemma_leaves_report_once(fields.drop_last(), waker, post.drop_last());
        assert(field_polled(fields[last], post[last], waker));
        match fields[last].child {
            Child::State(cell) => {
                cell.lemma_refreshed(waker);
            },
            Child::Stream(cell) => {
                assert(stream_calls(post[last].callback, post[last].child->Stream_0.queued())
                    =~= Seq::<Invocation<T>>::empty());
            },
            Child::Component(_) => {},
        }
        assert(pass_calls(post, Role::State) =~= Seq::<Invocation<T>>::empty());
        assert(pass_calls(post, Role::Stream) =~= Seq::<Invocation<T>>::empty());
    }
}

/// The invocations of one poll come in a fixed order of kinds: those for
/// nested components, then those for tracked cells, then those for stream
/// cells, then the composite's own. The composite's own callback is invoked
/// at most once, and exactly when it is registered and the summary is not
/// empty.
pub proof fn lemma_call_order<C: AsyncComponent, V, S, T>(
    fields: Seq<Field<C, V, S, T>>,
    on_change: Option<CallbackId>,
)
    ensures
        forall|i: int, j: int|
            0 <= i <= j < fields_calls(fields, on_change).len() ==> (#[trigger] fields_calls(
                fields,
                on_change,
            )[i]).rank() <= (#[trigger] fields_calls(fields, on_change)[j]).rank(),
        aggregate_calls::<T>(on_change, fields_flags(fields)).len() == (if on_change.is_some()
            && !fields_flags(fields).spec_is_empty() {
            1nat
        } else {
            0nat
        }),
        forall|i: int|
            0 <= i < fields_calls(fields, on_change).len() && (#[trigger] fields_calls(
                fields,
                on_change,
            )[i]) is Aggregate ==> i == fields_calls(fields, on_change).len() - 1,
{
    lemma_pass_calls_rank(fields, Role::Component);
    lemma_pass_calls_rank(fields, Role::State);
    lemma_pass_calls_rank(fields, Role::Stream);
    let a = pass_calls(fields, Role::Component);
    let b = pass_calls(fields, Role::State);
    let c = pass_calls(fields, Role::Stream);
    let d = aggregate_calls::<T>(on_change, fields_flags(fields));
    let all = fields_calls(fields, on_change);
    assert(all == a + b + c + d);
    assert forall|i: int| 0 <= i < all.len() implies (#[trigger] all[i]).rank() == (if i < a.len() {
        0int
    } else if i < a.len() + b.len() {
        1int
    } else if i < a.len() + b.len() + c.len() {
        2int
    } else {
        3int
    }) by {
        if i < a.len() {
            assert(all[i] == a[i]);
        } else if i < a.len() + b.len() {
            assert(all[i] == b[i - a.len()]);
        } else if i < a.len() + b.len() + c.len() {
            assert(all[i] == c[i - a.len() - b.len()]);
        } else {
            assert(all[i] == d[i - a.len() - b.len() - c.len()]);
        }
    }
}

} // verus!
