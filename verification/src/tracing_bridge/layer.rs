//! The layer that enters a scope for each span and leaves it with the span.

use std::any::TypeId;
use vstd::prelude::*;

use crate::cell::ContextCell;
use crate::context;
use crate::registry::Registry;
use crate::store::StoreView;
use crate::tracing_bridge::field_mapping::{ExtractedView, FieldValue, FieldView, Recording};
use crate::tracing_bridge::guard_stack::GuardStack;
use crate::tracing_bridge::layer_common::{extract_names, extract_recorded};
use crate::tracing_bridge::span_info::{SpanInfo, SpanState, SpanView};
use crate::tracing_bridge::sync_layer::{set_span_values, take_field_values};
use crate::tracing_bridge::tracing_field::TracingFieldEntry;
use crate::value::TypedValue;

verus! {

/// A layer that enters a scope of the thread's context for each span.
pub struct DcontextLayer {
    /// Whether the span itself is kept as a value.
    pub include_span_info: bool,
}

/// Builds a [`DcontextLayer`].
pub struct DcontextLayerBuilder {
    pub include_span_info: bool,
}

impl DcontextLayerBuilder {
    /// Keep each span as a value of the context.
    pub fn include_span_info(self) -> (r: Self)
        ensures
            r.include_span_info,
    {
        DcontextLayerBuilder { include_span_info: true }
    }

    /// The finished layer.
    pub fn build(self) -> (r: DcontextLayer)
        ensures
            r.include_span_info == self.include_span_info,
    {
        DcontextLayer { include_span_info: self.include_span_info }
    }
}

/// The values that a recording has for the fields that values are taken from.
pub open spec fn taken_from<X, P>(
    entries: Seq<TracingFieldEntry<X, P>>,
    recording: Seq<(Seq<char>, FieldView)>,
) -> ExtractedView {
    ExtractedView::empty().record_all(
        crate::tracing_bridge::layer_common::extract_fields(entries),
        recording,
    )
}

/// What is kept with a span after a recording.
pub open spec fn kept_with_span<X, P>(
    entries: Seq<TracingFieldEntry<X, P>>,
    recording: Seq<(Seq<char>, FieldView)>,
    kept: Option<ExtractedView>,
    merge: bool,
) -> Option<ExtractedView> {
    let values = taken_from(entries, recording);
    if values.has_no_values() {
        kept
    } else {
        match kept {
            Some(existing) => if merge {
                Some(existing.merged(values))
            } else {
                Some(values)
            },
            None => Some(values),
        }
    }
}

/// Whether entering a span can turn one context into another: a scope is
/// entered, with the name of the span where that is known, and the values of
/// the span are set there.
pub open spec fn enters_scope<
    V,
    X: Fn(&FieldValue) -> Option<V>,
    P,
    W: Fn(SpanInfo) -> V,
>(
    layer: DcontextLayer,
    span: Option<SpanView>,
    entries: Seq<TracingFieldEntry<X, P>>,
    cached: Set<Seq<char>>,
    info_type: TypeId,
    make: W,
    before: Option<StoreView<TypedValue<V>>>,
    after: Option<StoreView<TypedValue<V>>>,
) -> bool {
    match span {
        Some(known) => exists|extracted: Option<StoreView<TypedValue<V>>>|
            {
                &&& #[trigger] crate::tracing_bridge::sync_layer::applies(
                    entries,
                    known.fields,
                    context::entered(before, cached, Some(known.info.name)),
                    extracted,
                )
                &&& if layer.include_span_info {
                    crate::tracing_bridge::sync_layer::keeps_span_info(
                        known.info,
                        info_type,
                        make,
                        extracted,
                        after,
                    )
                } else {
                    after == extracted
                }
            },
        None => after == context::entered(before, cached, None),
    }
}

impl DcontextLayer {
    /// A layer that does not keep spans as values.
    pub fn new() -> (r: Self)
        ensures
            !r.include_span_info,
    {
        DcontextLayer { include_span_info: false }
    }

    /// Start from the defaults.
    pub fn builder() -> (r: DcontextLayerBuilder)
        ensures
            !r.include_span_info,
    {
        DcontextLayerBuilder { include_span_info: false }
    }

    fn keep_recorded<X, P>(
        &self,
        span: &mut SpanState,
        entries: &Vec<TracingFieldEntry<X, P>>,
        recording: &Recording,
        merge: bool,
    )
        ensures
            final(span)@ == (SpanView {
                fields: kept_with_span(
                    entries@,
                    crate::tracing_bridge::field_mapping::recording_view(recording@),
                    old(span)@.fields,
                    merge,
                ),
                ..old(span)@
            }),
    {
        let ghost list = crate::tracing_bridge::field_mapping::recording_view(recording@);
        let names = extract_names(entries);
        let none: Vec<&'static str> = Vec::new();
        let fields = extract_recorded(&names, &none, recording);
        proof {
            let values = taken_from(entries@, list);
            assert(crate::tracing_bridge::field_mapping::name_views(none@) =~= Seq::<
                Seq<char>,
            >::empty());
            assert(values.marked(Seq::empty()) =~= values);
        }
        if fields.is_empty() {
            return ;
        }
        match span.fields.take() {
            Some(existing) => {
                if merge {
                    let mut existing = existing;
                    existing.merge(fields);
                    span.fields = Some(existing);
                } else {
                    span.fields = Some(fields);
                }
            },
            None => {
                span.fields = Some(fields);
            },
        }
    }

    /// A span was made: keep the field values that are asked for.
    pub fn on_new_span<X, P>(
        &self,
        span: &mut SpanState,
        entries: &Vec<TracingFieldEntry<X, P>>,
        recording: &Recording,
    )
        ensures
            final(span)@ == (SpanView {
                fields: kept_with_span(
                    entries@,
                    crate::tracing_bridge::field_mapping::recording_view(recording@),
                    old(span)@.fields,
                    false,
                ),
                ..old(span)@
            }),
    {
        self.keep_recorded(span, entries, recording, false);
    }

    /// Fields of a span were recorded later on.
    pub fn on_record<X, P>(
        &self,
        span: &mut SpanState,
        entries: &Vec<TracingFieldEntry<X, P>>,
        recording: &Recording,
    )
        ensures
            final(span)@ == (SpanView {
                fields: kept_with_span(
                    entries@,
                    crate::tracing_bridge::field_mapping::recording_view(recording@),
                    old(span)@.fields,
                    true,
                ),
                ..old(span)@
            }),
    {
        self.keep_recorded(span, entries, recording, true);
    }

    /// Enter a scope for a span, with its name where that is known, and keep
    /// the guard of the scope.
    pub fn enter_span_scope<V, E, D, M>(
        &self,
        id: u64,
        span: &Option<SpanState>,
        cell: &mut ContextCell<V>,
        registry: &Registry<'_, E, D, M>,
        guards: &mut GuardStack,
    )
        requires
            context::can_enter(old(cell)@),
        ensures
            final(cell)@ == context::entered(
                old(cell)@,
                crate::registry::cached_set(registry@),
                match crate::tracing_bridge::sync_layer::span_view(*span) {
                    Some(known) => Some(known.info.name),
                    None => None,
                },
            ),
            final(guards)@ == old(guards)@.push((id, context::entered_depth(old(cell)@))),
    {
        let guard = match span {
            Some(known) => context::push_scope(cell, registry, known.info.name.as_str()),
            None => context::enter(cell, registry, None),
        };
        guards.push_guard(id, guard);
    }

    /// A span was entered: enter a scope for it, set its values there, and keep
    /// the guard of the scope.
    pub fn on_enter<V, X: Fn(&FieldValue) -> Option<V>, P, W: Fn(SpanInfo) -> V, E, D, M>(
        &self,
        id: u64,
        span: &Option<SpanState>,
        entries: &Vec<TracingFieldEntry<X, P>>,
        cell: &mut ContextCell<V>,
        registry: &Registry<'_, E, D, M>,
        guards: &mut GuardStack,
        info_type: TypeId,
        make: &W,
    )
        requires
            context::can_enter(old(cell)@),
            crate::tracing_bridge::tracing_field::extractors_ready::<V, X, P>(entries@),
            forall|given: SpanInfo| make.requires((given,)),
        ensures
            enters_scope(
                *self,
                crate::tracing_bridge::sync_layer::span_view(*span),
                entries@,
                crate::registry::cached_set(registry@),
                info_type,
                *make,
                old(cell)@,
                final(cell)@,
            ),
            final(guards)@ == old(guards)@.push((id, context::entered_depth(old(cell)@))),
    {
        self.enter_span_scope(id, span, cell, registry, guards);
        match span {
            Some(known) => {
                let values = take_field_values(entries, &known.fields);
                proof {
                    let extracted = crate::tracing_bridge::sync_layer::with_extracted(
                        cell@,
                        entries@,
                        values@,
                    );
                    assert(crate::tracing_bridge::sync_layer::takes(
                        entries@,
                        known@.fields,
                        values@,
                    ));
                    assert(crate::tracing_bridge::sync_layer::applies(
                        entries@,
                        known@.fields,
                        cell@,
                        extracted,
                    ));
                }
                set_span_values(
                    self.include_span_info,
                    &known.info,
                    entries,
                    values,
                    cell,
                    info_type,
                    make,
                );
            },
            None => {},
        }
    }

    /// A span was left: leave the scope that was last entered for it.
    pub fn on_exit<V>(&self, id: u64, cell: &mut ContextCell<V>, guards: &mut GuardStack)
        ensures
            leaves_scope(id, old(guards)@, final(guards)@, old(cell)@, final(cell)@),
    {
        match guards.pop_guard(id) {
            Some(guard) => {
                context::leave_scope(cell, guard.expected_depth());
            },
            None => {},
        }
    }

    /// A span is over: leave a scope that is still there, and keep nothing with
    /// the span any more.
    pub fn on_close<V>(
        &self,
        id: u64,
        span: &mut Option<SpanState>,
        cell: &mut ContextCell<V>,
        guards: &mut GuardStack,
    )
        ensures
            leaves_scope(id, old(guards)@, final(guards)@, old(cell)@, final(cell)@),
            crate::tracing_bridge::sync_layer::span_view(*final(span)) == (
            match crate::tracing_bridge::sync_layer::span_view(*old(span)) {
                Some(known) => Some(SpanView { fields: None, ..known }),
                None => None,
            }),
    {
        self.on_exit(id, cell, guards);
        match span {
            Some(known) => {
                known.fields = None;
            },
            None => {},
        }
    }
}

/// Whether leaving a span can turn guards and context into others: the most
/// recent guard of the span leaves its scope; without one nothing changes.
pub open spec fn leaves_scope<V>(
    id: u64,
    guards: Seq<(u64, usize)>,
    guards_after: Seq<(u64, usize)>,
    before: Option<StoreView<TypedValue<V>>>,
    after: Option<StoreView<TypedValue<V>>>,
) -> bool {
    ||| exists|at: int| #[trigger]
        crate::tracing_bridge::guard_stack::is_latest(guards, id, at) && guards_after
            == guards.remove(at) && after == context::left(before, guards[at].1)
    ||| guards_after == guards && after == before && forall|j: int|
        0 <= j < guards.len() ==> (#[trigger] guards[j]).0 != id
}

impl Default for DcontextLayer {
    fn default() -> (r: Self)
        ensures
            !r.include_span_info,
    {
        DcontextLayer::new()
    }
}

/// Entering a span and leaving it again brings back the context, whatever was
/// done inside the scope of the span.
pub proof fn law_span_reverts<V>(
    store: StoreView<TypedValue<V>>,
    inside_store: StoreView<TypedValue<V>>,
    guards: Seq<(u64, usize)>,
    id: u64,
    guards_after: Seq<(u64, usize)>,
    after: Option<StoreView<TypedValue<V>>>,
)
    requires
        store.wf(),
        !store.is_full(),
        crate::store_laws::inside(inside_store, store),
        leaves_scope(
            id,
            guards.push((id, context::entered_depth(Some(store)))),
            guards_after,
            Some(inside_store),
            after,
        ),
    ensures
        after == Some(store),
        guards_after == guards,
{
    let pushed = guards.push((id, context::entered_depth(Some(store))));
    assert(pushed[guards.len() as int].0 == id);
    let at = choose|at: int| #[trigger]
        crate::tracing_bridge::guard_stack::is_latest(pushed, id, at) && guards_after
            == pushed.remove(at) && after == context::left(Some(inside_store), pushed[at].1);
    crate::tracing_bridge::guard_stack::law_latest_guard_comes_out_first(
        guards,
        id,
        context::entered_depth(Some(store)),
        at,
    );
    crate::store_laws::law_leaving_reverts(inside_store, store);
}

} // verus!
