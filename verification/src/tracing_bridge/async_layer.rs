//! The layer for tasks: a scope of the task lasts as long as the span, however
//! often the task is suspended in between.

use vstd::prelude::*;

use crate::async_ctx;
use crate::cell::TaskSlot;
use crate::context;
use crate::registry::Registry;
use crate::store::StoreView;
use crate::tracing_bridge::span_info::{SpanState, SpanView};
use crate::value::TypedValue;

verus! {

/// A layer that works on the context of the running task.
pub struct AsyncDcontextLayer {}

/// Entering a span: the first time, a scope with its name is entered where the
/// task has a context. Gives what is kept with the span, and the slot of the
/// task.
pub open spec fn span_entered<V>(
    span: SpanView,
    slot: Option<Option<StoreView<TypedValue<V>>>>,
    cached: Set<Seq<char>>,
) -> (SpanView, Option<Option<StoreView<TypedValue<V>>>>) {
    if span.async_depth is Some {
        (span, slot)
    } else {
        match crate::cell::task_store(slot) {
            Some(store) => (
                SpanView { async_depth: Some((store.current.depth + 1) as usize), ..span },
                Some(Some(store.push(cached, Some(span.info.name)))),
            ),
            None => (span, slot),
        }
    }
}

/// A span is over: the scope that was entered for it is left. Gives what is
/// kept with the span, and the slot of the task.
pub open spec fn span_closed<V>(
    span: SpanView,
    slot: Option<Option<StoreView<TypedValue<V>>>>,
) -> (SpanView, Option<Option<StoreView<TypedValue<V>>>>) {
    match span.async_depth {
        Some(depth) => (
            SpanView { async_depth: None, ..span },
            crate::cell::with_task_store(
                slot,
                match crate::cell::task_store(slot) {
                    Some(store) => Some(store.pop(depth as nat)),
                    None => None,
                },
            ),
        ),
        None => (span, slot),
    }
}

impl AsyncDcontextLayer {
    /// The layer.
    pub fn new() -> (r: Self)
        ensures
            r == (AsyncDcontextLayer {  }),
    {
        AsyncDcontextLayer {  }
    }

    /// A span was entered. Only the first time a scope is entered for it.
    pub fn on_enter<V, E, D, M>(
        &self,
        span: &mut SpanState,
        slot: &mut TaskSlot<V>,
        registry: &Registry<'_, E, D, M>,
    )
        requires
            context::can_enter(crate::cell::task_store(old(slot)@)),
        ensures
            (final(span)@, final(slot)@) == span_entered(
                old(span)@,
                old(slot)@,
                crate::registry::cached_set(registry@),
            ),
    {
        if span.async_depth.is_some() {
            return ;
        }
        let ghost before = span@;
        match async_ctx::try_push_scope(slot, registry, span.info.name.as_str()) {
            Some(guard) => {
                span.async_depth = Some(guard.expected_depth());
                assert(span@ =~= SpanView { async_depth: span.async_depth, ..before });
            },
            None => {},
        }
    }

    /// A span was left: its scope stays, as the task may only be suspended.
    pub fn on_exit<V>(&self, slot: &mut TaskSlot<V>)
        ensures
            *final(slot) == *old(slot),
    {
    }

    /// A span is over: leave the scope that was entered for it.
    pub fn on_close<V>(&self, span: &mut SpanState, slot: &mut TaskSlot<V>)
        ensures
            (final(span)@, final(slot)@) == span_closed(old(span)@, old(slot)@),
    {
        let ghost before = span@;
        match span.async_depth.take() {
            Some(depth) => {
                assert(span@ =~= SpanView { async_depth: None, ..before });
                async_ctx::pop_scope(slot, depth);
            },
            None => {
                assert(span@ =~= before);
            },
        }
    }
}

impl Default for AsyncDcontextLayer {
    fn default() -> (r: Self)
        ensures
            r == (AsyncDcontextLayer {  }),
    {
        AsyncDcontextLayer::new()
    }
}

/// However often a span is entered again, only one scope is entered for it.
pub proof fn law_entering_again_does_nothing<V>(
    span: SpanView,
    slot: Option<Option<StoreView<TypedValue<V>>>>,
    later: Option<Option<StoreView<TypedValue<V>>>>,
    cached: Set<Seq<char>>,
)
    requires
        crate::cell::task_store(slot) is Some,
    ensures
        ({
            let entered = span_entered(span, slot, cached).0;
            span_entered(entered, later, cached) == (entered, later)
        }),
{
}

/// Once a span is over the context of its task is as it was before, whatever
/// was done inside the scope of the span: nothing leaks.
pub proof fn law_closed_span_leaves_nothing<V>(
    span: SpanView,
    store: StoreView<TypedValue<V>>,
    cached: Set<Seq<char>>,
    after: StoreView<TypedValue<V>>,
)
    requires
        span.async_depth is None,
        store.wf(),
        !store.is_full(),
        crate::store_laws::inside(after, store),
    ensures
        ({
            let entered = span_entered(span, Some(Some(store)), cached).0;
            span_closed(entered, Some(Some(after))) == (span, Some(Some(store)))
        }),
{
    crate::store_laws::law_leaving_reverts(after, store);
    let entered = span_entered(span, Some(Some(store)), cached).0;
    assert(span_closed(entered, Some(Some(after))).0 =~= span);
}

} // verus!
