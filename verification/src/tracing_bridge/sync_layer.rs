//! The layer for threads: values go from spans into the context of the thread
//! and back. It enters no scopes.

use std::any::TypeId;
use std::sync::Arc;
use vstd::prelude::*;

use crate::async_ctx;
use crate::cell::{ContextCell, TaskSlot};
use crate::context;
use crate::key_map::KeyMap;
use crate::store::StoreView;
use crate::tracing_bridge::field_mapping::{ExtractedFields, ExtractedView, FieldValue, Recording};
use crate::tracing_bridge::layer_common;
use crate::tracing_bridge::span_info::{SpanInfo, SpanState, SpanView, SPAN_INFO_KEY};
use crate::tracing_bridge::tracing_field::{
    collect_span_fields, extract_value, TracingFieldEntry,
};
use crate::value::TypedValue;

verus! {

/// A layer that works on the context of the thread.
pub struct SyncDcontextLayer {
    /// Whether the span itself is kept as a value.
    pub include_span_info: bool,
    /// Whether spans are left alone while a task has a context of its own.
    pub async_aware: bool,
}

/// Builds a [`SyncDcontextLayer`].
pub struct SyncDcontextLayerBuilder {
    pub include_span_info: bool,
    pub async_aware: bool,
}

/// What a cell holds when entries have put their values into it, in their
/// order.
pub open spec fn with_extracted<V, X, P>(
    cell: Option<StoreView<TypedValue<V>>>,
    entries: Seq<TracingFieldEntry<X, P>>,
    values: Seq<Option<Arc<TypedValue<V>>>>,
) -> Option<StoreView<TypedValue<V>>>
    decreases values.len(),
{
    if values.len() == 0 {
        cell
    } else {
        let before = with_extracted(cell, entries, values.drop_last());
        match values.last() {
            Some(value) => context::with_value(
                before,
                entries[values.len() - 1].context_key@,
                value,
            ),
            None => before,
        }
    }
}

/// Whether these can be the values that entries take from the fields of a span,
/// one for each entry. A span without fields gives none at all.
pub open spec fn takes<V, X: Fn(&FieldValue) -> Option<V>, P>(
    entries: Seq<TracingFieldEntry<X, P>>,
    fields: Option<ExtractedView>,
    values: Seq<Option<Arc<TypedValue<V>>>>,
) -> bool {
    match fields {
        Some(held) => values.len() == entries.len() && forall|i: int|
            0 <= i < entries.len() ==> crate::tracing_bridge::tracing_field::extracts(
                #[trigger] entries[i],
                held,
                values[i],
            ),
        None => values.len() == 0,
    }
}

/// Whether taking values from the fields of a span can turn one context into
/// another.
pub open spec fn applies<V, X: Fn(&FieldValue) -> Option<V>, P>(
    entries: Seq<TracingFieldEntry<X, P>>,
    fields: Option<ExtractedView>,
    before: Option<StoreView<TypedValue<V>>>,
    after: Option<StoreView<TypedValue<V>>>,
) -> bool {
    exists|values: Seq<Option<Arc<TypedValue<V>>>>| #[trigger]
        takes(entries, fields, values) && after == with_extracted(before, entries, values)
}

/// The values that entries take from the fields of a span.
pub fn take_field_values<V, X: Fn(&FieldValue) -> Option<V>, P>(
    entries: &Vec<TracingFieldEntry<X, P>>,
    fields: &Option<ExtractedFields>,
) -> (r: Vec<Option<Arc<TypedValue<V>>>>)
    requires
        crate::tracing_bridge::tracing_field::extractors_ready::<V, X, P>(entries@),
    ensures
        takes(entries@, crate::tracing_bridge::span_info::fields_view(*fields), r@),
        r@.len() <= entries@.len(),
{
    let mut values: Vec<Option<Arc<TypedValue<V>>>> = Vec::new();
    let held = match fields {
        Some(held) => held,
        None => {
            return values;
        },
    };
    let mut i: usize = 0;
    while i < entries.len()
        invariant
            crate::tracing_bridge::tracing_field::extractors_ready::<V, X, P>(entries@),
            i <= entries@.len(),
            values@.len() == i,
            forall|j: int|
                0 <= j < i ==> crate::tracing_bridge::tracing_field::extracts(
                    #[trigger] entries@[j],
                    held@,
                    values@[j],
                ),
        decreases entries@.len() - i,
    {
        values.push(extract_value(&entries[i], held));
        i = i + 1;
    }
    values
}

/// Set values that entries took from a span in the context.
pub fn set_field_values<V, X, P>(
    entries: &Vec<TracingFieldEntry<X, P>>,
    values: Vec<Option<Arc<TypedValue<V>>>>,
    cell: &mut ContextCell<V>,
)
    requires
        values@.len() <= entries@.len(),
    ensures
        final(cell)@ == with_extracted(old(cell)@, entries@, values@),
{
    let ghost before = cell@;
    let mut i: usize = 0;
    assert(values@.take(0) =~= Seq::<Option<Arc<TypedValue<V>>>>::empty());
    while i < values.len()
        invariant
            i <= values@.len() <= entries@.len(),
            cell@ == with_extracted(before, entries@, values@.take(i as int)),
        decreases values@.len() - i,
    {
        assert(values@.take(i + 1).drop_last() =~= values@.take(i as int));
        match &values[i] {
            Some(made) => {
                context::set_raw_value(cell, entries[i].context_key, Arc::clone(made));
            },
            None => {},
        }
        i = i + 1;
    }
    assert(values@.take(i as int) =~= values@);
}

/// Take values from the fields of a span into the context.
pub fn apply_field_extraction<V, X: Fn(&FieldValue) -> Option<V>, P>(
    entries: &Vec<TracingFieldEntry<X, P>>,
    fields: &Option<ExtractedFields>,
    cell: &mut ContextCell<V>,
)
    requires
        crate::tracing_bridge::tracing_field::extractors_ready::<V, X, P>(entries@),
    ensures
        applies(
            entries@,
            crate::tracing_bridge::span_info::fields_view(*fields),
            old(cell)@,
            final(cell)@,
        ),
{
    let values = take_field_values(entries, fields);
    assert(takes(entries@, crate::tracing_bridge::span_info::fields_view(*fields), values@));
    set_field_values(entries, values, cell);
}

/// Whether keeping a span as a value can turn one context into another.
pub open spec fn keeps_span_info<V, W: Fn(SpanInfo) -> V>(
    info: crate::tracing_bridge::span_info::SpanInfoView,
    type_id: TypeId,
    make: W,
    before: Option<StoreView<TypedValue<V>>>,
    after: Option<StoreView<TypedValue<V>>>,
) -> bool {
    exists|given: SpanInfo, stored: Arc<TypedValue<V>>|
        {
            &&& given@ == info
            &&& #[trigger] make.ensures((given,), stored.value)
            &&& stored.type_id == type_id
            &&& after == context::with_value(before, SPAN_INFO_KEY@, stored)
        }
}

/// Keep a span as a value of the context.
pub fn set_span_info<V, W: Fn(SpanInfo) -> V>(
    cell: &mut ContextCell<V>,
    info: &SpanInfo,
    type_id: TypeId,
    make: &W,
)
    requires
        forall|given: SpanInfo| make.requires((given,)),
    ensures
        keeps_span_info(info@, type_id, *make, old(cell)@, final(cell)@),
{
    let given = info.copy();
    let ghost copied = given;
    let value = make(given);
    let stored = Arc::new(TypedValue { type_id, value });
    assert(make.ensures((copied,), stored.value));
    context::set_raw_value(cell, SPAN_INFO_KEY, stored);
}

/// Whether setting the values of a span can turn one context into another: what
/// entries took from it, and the span itself where that is asked for.
pub open spec fn sets_span_values<V, X, P, W: Fn(SpanInfo) -> V>(
    include_span_info: bool,
    info: crate::tracing_bridge::span_info::SpanInfoView,
    entries: Seq<TracingFieldEntry<X, P>>,
    values: Seq<Option<Arc<TypedValue<V>>>>,
    info_type: TypeId,
    make: W,
    before: Option<StoreView<TypedValue<V>>>,
    after: Option<StoreView<TypedValue<V>>>,
) -> bool {
    let extracted = with_extracted(before, entries, values);
    if include_span_info {
        keeps_span_info(info, info_type, make, extracted, after)
    } else {
        after == extracted
    }
}

/// Set the values of a span in the context: what entries took from it, and the
/// span itself where that is asked for.
pub fn set_span_values<V, X, P, W: Fn(SpanInfo) -> V>(
    include_span_info: bool,
    info: &SpanInfo,
    entries: &Vec<TracingFieldEntry<X, P>>,
    values: Vec<Option<Arc<TypedValue<V>>>>,
    cell: &mut ContextCell<V>,
    info_type: TypeId,
    make: &W,
)
    requires
        values@.len() <= entries@.len(),
        forall|given: SpanInfo| make.requires((given,)),
    ensures
        sets_span_values(
            include_span_info,
            info@,
            entries@,
            values@,
            info_type,
            *make,
            old(cell)@,
            final(cell)@,
        ),
{
    set_field_values(entries, values, cell);
    if include_span_info {
        set_span_info(cell, info, info_type, make);
    }
}

/// The fields of a span that the user set.
pub open spec fn user_set_of(fields: Option<ExtractedView>) -> Set<Seq<char>> {
    match fields {
        Some(held) => held.user_set,
        None => Set::empty(),
    }
}

/// The values of the context to record into the fields of a span.
pub fn record_context_to_span<V, X, P: Fn(&V) -> String>(
    entries: &Vec<TracingFieldEntry<X, P>>,
    fields: &Option<ExtractedFields>,
    cell: &ContextCell<V>,
) -> (r: Vec<(&'static str, String)>)
    requires
        crate::tracing_bridge::tracing_field::formatters_ready::<V, X, P>(entries@),
    ensures
        crate::tracing_bridge::tracing_field::collects_span_fields(
            entries@,
            user_set_of(crate::tracing_bridge::span_info::fields_view(*fields)),
            cell@,
            crate::tracing_bridge::tracing_field::pair_views(r@),
        ),
{
    match fields {
        Some(held) => collect_span_fields(entries, &held.user_set_fields, cell),
        None => {
            let none: KeyMap<()> = KeyMap::new();
            assert(none@.dom() =~= Set::<Seq<char>>::empty());
            collect_span_fields(entries, &none, cell)
        },
    }
}

impl SyncDcontextLayerBuilder {
    /// Keep each span as a value of the context.
    pub fn include_span_info(self) -> (r: Self)
        ensures
            r == (SyncDcontextLayerBuilder { include_span_info: true, ..self }),
    {
        SyncDcontextLayerBuilder { include_span_info: true, ..self }
    }

    /// Leave spans alone while a task has a context of its own.
    pub fn async_aware(self) -> (r: Self)
        ensures
            r == (SyncDcontextLayerBuilder { async_aware: true, ..self }),
    {
        SyncDcontextLayerBuilder { async_aware: true, ..self }
    }

    /// The finished layer.
    pub fn build(self) -> (r: SyncDcontextLayer)
        ensures
            r.include_span_info == self.include_span_info,
            r.async_aware == self.async_aware,
    {
        SyncDcontextLayer {
            include_span_info: self.include_span_info,
            async_aware: self.async_aware,
        }
    }
}

/// Whether a layer leaves a span alone. It is decided when the span is first
/// entered, and kept.
pub open spec fn skips(layer: SyncDcontextLayer, span: Option<SpanView>, task_active: bool) -> bool {
    layer.async_aware && (span matches Some(known) && (match known.skip {
        Some(decided) => decided,
        None => task_active,
    }))
}

/// What is kept with a span once it is decided whether it is left alone.
pub open spec fn decided(
    layer: SyncDcontextLayer,
    span: Option<SpanView>,
    task_active: bool,
) -> Option<SpanView> {
    match span {
        Some(known) => Some(
            SpanView {
                skip: if layer.async_aware && known.skip is None {
                    Some(task_active)
                } else {
                    known.skip
                },
                ..known
            },
        ),
        None => None,
    }
}

/// What is kept with an optional span.
pub open spec fn span_view(span: Option<SpanState>) -> Option<SpanView> {
    match span {
        Some(known) => Some(known@),
        None => None,
    }
}

/// Whether entering a span can turn one context into another and ask for these
/// values to be recorded.
pub open spec fn enters<
    V,
    X: Fn(&FieldValue) -> Option<V>,
    P: Fn(&V) -> String,
    W: Fn(SpanInfo) -> V,
>(
    layer: SyncDcontextLayer,
    span: SpanView,
    entries: Seq<TracingFieldEntry<X, P>>,
    info_type: TypeId,
    make: W,
    before: Option<StoreView<TypedValue<V>>>,
    after: Option<StoreView<TypedValue<V>>>,
    to_record: Seq<(Seq<char>, Seq<char>)>,
) -> bool {
    exists|extracted: Option<StoreView<TypedValue<V>>>|
        {
            &&& #[trigger] applies(entries, span.fields, before, extracted)
            &&& if layer.include_span_info {
                keeps_span_info(span.info, info_type, make, extracted, after)
            } else {
                after == extracted
            }
            &&& crate::tracing_bridge::tracing_field::collects_span_fields(
                entries,
                user_set_of(span.fields),
                after,
                to_record,
            )
        }
}

impl SyncDcontextLayer {
    /// A layer that neither keeps spans as values nor looks at tasks.
    pub fn new() -> (r: Self)
        ensures
            !r.include_span_info,
            !r.async_aware,
    {
        SyncDcontextLayer { include_span_info: false, async_aware: false }
    }

    /// Start from the defaults.
    pub fn builder() -> (r: SyncDcontextLayerBuilder)
        ensures
            !r.include_span_info,
            !r.async_aware,
    {
        SyncDcontextLayerBuilder { include_span_info: false, async_aware: false }
    }

    /// Whether to leave a span alone.
    pub fn should_skip_for_span<V>(
        &self,
        span: &mut Option<SpanState>,
        task: &TaskSlot<V>,
    ) -> (r: bool)
        ensures
            r == skips(
                *self,
                span_view(*old(span)),
                crate::cell::task_store(task@) is Some,
            ),
            span_view(*final(span)) == decided(
                *self,
                span_view(*old(span)),
                crate::cell::task_store(task@) is Some,
            ),
    {
        if !self.async_aware {
            return false;
        }
        match span {
            Some(known) => match known.skip {
                Some(skip) => skip,
                None => {
                    let skip = async_ctx::is_active(task);
                    known.skip = Some(skip);
                    skip
                },
            },
            None => false,
        }
    }

    /// A span was made: keep the field values that are asked for.
    pub fn on_new_span<X, P>(
        &self,
        span: &mut SpanState,
        entries: &Vec<TracingFieldEntry<X, P>>,
        recording: &Recording,
    )
        ensures
            final(span)@ == (SpanView {
                fields: match layer_common::kept_for_new_span(
                    entries@,
                    crate::tracing_bridge::field_mapping::recording_view(recording@),
                ) {
                    Some(values) => Some(values),
                    None => old(span)@.fields,
                },
                ..old(span)@
            }),
    {
        match layer_common::extract_span_fields(entries, recording) {
            Some(fields) => {
                span.fields = Some(fields);
            },
            None => {},
        }
    }

    /// Fields of a span were recorded later on.
    pub fn on_record<X, P>(
        &self,
        self_recording: bool,
        span: &mut SpanState,
        entries: &Vec<TracingFieldEntry<X, P>>,
        recording: &Recording,
    )
        ensures
            final(span)@ == (SpanView {
                fields: layer_common::kept_after_record(
                    self_recording,
                    entries@,
                    crate::tracing_bridge::field_mapping::recording_view(recording@),
                    old(span)@.fields,
                ),
                ..old(span)@
            }),
    {
        let kept = span.fields.take();
        span.fields = layer_common::merge_recorded_fields(
            self_recording,
            entries,
            recording,
            kept,
        );
    }

    /// A span was entered: take its values into the context, keep the span
    /// itself where that is asked for, and give out the values to record into
    /// its fields.
    pub fn on_enter<
        V,
        X: Fn(&FieldValue) -> Option<V>,
        P: Fn(&V) -> String,
        W: Fn(SpanInfo) -> V,
    >(
        &self,
        span: &mut Option<SpanState>,
        entries: &Vec<TracingFieldEntry<X, P>>,
        cell: &mut ContextCell<V>,
        task: &TaskSlot<V>,
        info_type: TypeId,
        make: &W,
    ) -> (r: Vec<(&'static str, String)>)
        requires
            crate::tracing_bridge::tracing_field::extractors_ready::<V, X, P>(entries@),
            crate::tracing_bridge::tracing_field::formatters_ready::<V, X, P>(entries@),
            forall|given: SpanInfo| make.requires((given,)),
        ensures
            span_view(*final(span)) == decided(
                *self,
                span_view(*old(span)),
                crate::cell::task_store(task@) is Some,
            ),
            match span_view(*old(span)) {
                Some(known) => if skips(
                    *self,
                    Some(known),
                    crate::cell::task_store(task@) is Some,
                ) {
                    final(cell)@ == old(cell)@ && r@.len() == 0
                } else {
                    enters(
                        *self,
                        known,
                        entries@,
                        info_type,
                        *make,
                        old(cell)@,
                        final(cell)@,
                        crate::tracing_bridge::tracing_field::pair_views(r@),
                    )
                },
                None => final(cell)@ == old(cell)@ && r@.len() == 0,
            },
    {
        if self.should_skip_for_span(span, task) {
            return Vec::new();
        }
        match &*span {
            Some(known) => {
                let values = take_field_values(entries, &known.fields);
                proof {
                    let extracted = with_extracted(cell@, entries@, values@);
                    assert(takes(entries@, known@.fields, values@));
                    assert(applies(entries@, known@.fields, cell@, extracted));
                }
                set_span_values(
                    self.include_span_info,
                    &known.info,
                    entries,
                    values,
                    cell,
                    info_type,
                    make,
                );
                record_context_to_span(entries, &known.fields, cell)
            },
            None => Vec::new(),
        }
    }

    /// A span was left: nothing is to be done, as no scope was entered for it.
    pub fn on_exit<V>(&self, cell: &mut ContextCell<V>)
        ensures
            *final(cell) == *old(cell),
    {
    }

    /// A span is over: nothing is kept with it any more.
    pub fn on_close(&self, span: &mut SpanState)
        ensures
            final(span)@ == (SpanView { fields: None, skip: None, ..old(span)@ }),
    {
        span.fields = None;
        span.skip = None;
    }
}

impl Default for SyncDcontextLayer {
    fn default() -> (r: Self)
        ensures
            !r.include_span_info,
            !r.async_aware,
    {
        SyncDcontextLayer::new()
    }
}

/// Values taken from spans change nothing but values of the active scope: no
/// scope is entered or left, and no name is added.
pub proof fn law_extraction_enters_no_scope<V, X, P>(
    store: StoreView<TypedValue<V>>,
    entries: Seq<TracingFieldEntry<X, P>>,
    values: Seq<Option<Arc<TypedValue<V>>>>,
)
    ensures
        with_extracted(Some(store), entries, values) is Some,
        with_extracted(Some(store), entries, values)->0.parents == store.parents,
        with_extracted(Some(store), entries, values)->0.frozen == store.frozen,
        with_extracted(Some(store), entries, values)->0.current == (crate::scope::ScopeView {
            values: with_extracted(Some(store), entries, values)->0.current.values,
            ..store.current
        }),
        with_extracted(Some(store), entries, values)->0.all_names() == store.all_names(),
    decreases values.len(),
{
    if values.len() > 0 {
        law_extraction_enters_no_scope(store, entries, values.drop_last());
    }
    let after = with_extracted(Some(store), entries, values)->0;
    lemma_names_without_values(store, after);
}

/// Names do not depend on values.
proof fn lemma_names_without_values<V>(
    before: StoreView<TypedValue<V>>,
    after: StoreView<TypedValue<V>>,
)
    requires
        after.parents == before.parents,
        after.frozen == before.frozen,
        after.current == (crate::scope::ScopeView {
            values: after.current.values,
            ..before.current
        }),
    ensures
        after.all_names() == before.all_names(),
{
    let a = seq![after.current] + after.visible_parents();
    let b = seq![before.current] + before.visible_parents();
    assert(a.drop_first() =~= after.visible_parents());
    assert(b.drop_first() =~= before.visible_parents());
}

/// A field that the user set is not among those that are recorded.
pub proof fn law_user_set_fields_are_not_recorded<V, X, P: Fn(&V) -> String>(
    entries: Seq<TracingFieldEntry<X, P>>,
    user_set: Set<Seq<char>>,
    cell: Option<StoreView<TypedValue<V>>>,
    fields: Seq<(Seq<char>, Seq<char>)>,
    i: int,
)
    requires
        crate::tracing_bridge::tracing_field::collects_span_fields(entries, user_set, cell, fields),
        0 <= i < fields.len(),
    ensures
        !user_set.contains(fields[i].0),
{
    let texts = choose|texts: Seq<Option<Seq<char>>>|
        {
            &&& texts.len() == entries.len()
            &&& forall|i: int|
                0 <= i < entries.len() ==> crate::tracing_bridge::tracing_field::records(
                    #[trigger] entries[i],
                    user_set,
                    cell,
                    texts[i],
                )
            &&& fields == #[trigger] crate::tracing_bridge::tracing_field::named_texts(
                crate::tracing_bridge::tracing_field::record_names(entries),
                texts,
            )
        };
    let names = crate::tracing_bridge::tracing_field::record_names(entries);
    assert forall|j: int| 0 <= j < texts.len() && (#[trigger] texts[j]) is Some implies
        !user_set.contains(names[j]) by {
        assert(crate::tracing_bridge::tracing_field::records(
            entries[j],
            user_set,
            cell,
            texts[j],
        ));
    }
    lemma_named_texts(names, texts, user_set, i);
}

proof fn lemma_named_texts(
    names: Seq<Seq<char>>,
    texts: Seq<Option<Seq<char>>>,
    left_out: Set<Seq<char>>,
    i: int,
)
    requires
        forall|j: int|
            0 <= j < texts.len() && (#[trigger] texts[j]) is Some ==> !left_out.contains(names[j]),
        0 <= i < crate::tracing_bridge::tracing_field::named_texts(names, texts).len(),
    ensures
        !left_out.contains(
            crate::tracing_bridge::tracing_field::named_texts(names, texts)[i].0,
        ),
    decreases texts.len(),
{
    if texts.len() > 0 {
        let before = texts.drop_last();
        assert forall|j: int| 0 <= j < before.len() && (#[trigger] before[j]) is Some implies
            !left_out.contains(names[j]) by {
            assert(before[j] == texts[j]);
        }
        let shorter = crate::tracing_bridge::tracing_field::named_texts(names, before);
        assert(texts[texts.len() - 1] == texts.last());
        if i < shorter.len() {
            lemma_named_texts(names, before, left_out, i);
        }
    }
}

} // verus!
