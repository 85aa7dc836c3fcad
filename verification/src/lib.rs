//! Incremental change propagation for trees of stateful components.
//!
//! A tree is built from tracked cells, stream cells, container adapters and
//! composites. Mutations mark cells as changed and record, in a
//! [`StateContext`], the wake handles that they invoke; a driver polls the
//! root and learns, as a [`ComponentPollFlags`] summary, which kinds of change
//! happened since the previous poll.
//!
//! The library performs no wake and runs no callback itself. It decides which
//! handles are invoked and which callbacks are due, and in what order, and
//! hands these decisions out as values.

pub mod boxed;
pub mod cell;
pub mod component;
pub mod composite;
pub mod context;
pub mod driver;
pub mod executor;
pub mod flags;
pub mod map;
pub mod option;
pub mod signal;
pub mod stream;
pub mod suspense;
pub mod vec;

pub use boxed::BoxedComponent;
pub use cell::{State, StateCell, StateStatus};
pub use component::{AsyncComponent, AsyncComponentExt, AsyncComponentStream, Next};
pub use composite::{CallbackId, Child, Composite, CompositeBuilder, Field, Invocation, Role};
pub use context::{enter_guarded, with_current_context, ContextScope, StateContext, WakeHandle};
pub use driver::{ComponentStream, SharedSignal};
pub use executor::{run, ControlFlow, Executor, ExecutorPollEvent, LoopEvent};
pub use flags::ComponentPollFlags;
pub use map::HashMapComponent;
pub use option::OptionComponent;
pub use signal::WakeSignal;
pub use stream::StreamCell;
pub use suspense::{SuspenseComponent, SuspenseVariant};
pub use vec::VecComponent;
