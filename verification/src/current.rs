//! The current trace context of one unit of execution.
//!
//! A [`CurrentStore`] is the cell that holds the context newly created
//! child spans inherit. Each thread owns one store; the library never
//! shares a store between threads, so no synchronization is needed.
//! Replacement is scoped: `set_current` hands back a guard holding the
//! previous value, and `restore` puts that value back, so that nested
//! replacements restore in last-in, first-out order.

use crate::trace_context::{ContextView, TraceContext};
use vstd::prelude::*;

verus! {

/// The per-execution-unit cell holding the current trace context.
///
/// Its view is the cell's content.
pub struct CurrentStore {
    cell: Option<TraceContext>,
}

impl View for CurrentStore {
    type V = Option<ContextView>;

    closed spec fn view(&self) -> Option<ContextView> {
        match self.cell {
            Some(c) => Some(c@),
            None => None,
        }
    }
}

impl CurrentStore {
    /// A store with no current context.
    pub fn new() -> (r: CurrentStore)
        ensures
            r@ is None,
    {
        CurrentStore { cell: None }
    }
}

/// A guard object for a store's current trace context.
///
/// It captures the previous context, and `restore` puts that value back.
/// Its view is the captured value.
pub struct CurrentGuard {
    prev: Option<TraceContext>,
}

impl View for CurrentGuard {
    type V = Option<ContextView>;

    closed spec fn view(&self) -> Option<ContextView> {
        match self.prev {
            Some(c) => Some(c@),
            None => None,
        }
    }
}

/// Sets the store's current trace context.
///
/// This does not start a span. It is designed to be used when
/// propagating the trace of an existing span to a new unit of execution.
///
/// The returned guard captures the previous value; handing it to
/// `restore` brings that value back.
pub fn set_current(store: &mut CurrentStore, context: TraceContext) -> (guard: CurrentGuard)
    ensures
        final(store)@ == Some(context@),
        guard@ == old(store)@,
{
    let prev = store.cell;
    store.cell = Some(context);
    CurrentGuard { prev }
}

/// Returns the store's current trace context.
pub fn current(store: &CurrentStore) -> (r: Option<TraceContext>)
    ensures
        match r {
            Some(c) => store@ == Some(c@),
            None => store@ is None,
        },
{
    store.cell
}

/// Restores the value that the guard captured, consuming the guard.
///
/// Restoring guards in the reverse of the order in which they were taken
/// puts the store through exactly the states it held before each
/// replacement.
pub fn restore(store: &mut CurrentStore, guard: CurrentGuard)
    ensures
        final(store)@ == guard@,
{
    store.cell = guard.prev;
}

} // verus!
