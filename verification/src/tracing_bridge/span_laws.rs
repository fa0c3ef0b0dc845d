//! What values are made of span fields, and what texts of values.

use std::any::TypeId;
use std::sync::Arc;
use vstd::prelude::*;

use crate::context;
use crate::registry::Registrations;
use crate::store::StoreView;
use crate::tracing_bridge::field_mapping::{ExtractedView, FieldValue, FieldView};
use crate::tracing_bridge::span_info::{SpanInfo, SpanInfoView, SpanView, SPAN_INFO_KEY};
use crate::tracing_bridge::sync_layer::SyncDcontextLayer;
use crate::tracing_bridge::tracing_field::{Extractor, Formatter, TracingField, TracingFieldEntry};
use crate::value::TypedValue;

verus! {

/// Whether a value is what an extractor, where there is one, answered for a
/// field, under the extractor's type.
pub open spec fn made_from<V, X: Fn(&FieldValue) -> Option<V>>(
    extractor: Option<Arc<Extractor<X>>>,
    field: FieldView,
    value: Option<Arc<TypedValue<V>>>,
) -> bool {
    if extractor is None {
        value is None
    } else {
        exists|given: FieldValue, answer: Option<V>| #[trigger]
            (extractor->0).extract.ensures((&given,), answer) && given@ == field && (
            answer is Some <==> value is Some) && (answer is Some ==> value->0.type_id == (
            extractor->0).type_id && value->0.value == answer->0)
    }
}

/// The value that an entry takes from a span is made of the span field that the
/// entry names, by the extractor for the kind of value which that field has. A
/// text goes before an unsigned number, that before a signed one, and that
/// before a truth value. Without such a field there is no value.
pub proof fn law_value_is_made_of_its_field<V, X: Fn(&FieldValue) -> Option<V>, P>(
    entry: TracingFieldEntry<X, P>,
    fields: ExtractedView,
    value: Option<Arc<TypedValue<V>>>,
)
    requires
        crate::tracing_bridge::tracing_field::extracts(entry, fields, value),
    ensures
        ({
            let name = entry.span_field@;
            let text = fields.strings.contains_key(name);
            let unsigned = fields.u64s.contains_key(name);
            let signed = fields.i64s.contains_key(name);
            let flag = fields.bools.contains_key(name);
            &&& entry.extract is None ==> value is None
            &&& entry.extract is Some && text ==> made_from(
                entry.extract->0.from_str,
                FieldView::Str(fields.strings[name]),
                value,
            )
            &&& entry.extract is Some && !text && unsigned ==> made_from(
                entry.extract->0.from_u64,
                FieldView::U64(fields.u64s[name]),
                value,
            )
            &&& entry.extract is Some && !text && !unsigned && signed ==> made_from(
                entry.extract->0.from_i64,
                FieldView::I64(fields.i64s[name]),
                value,
            )
            &&& entry.extract is Some && !text && !unsigned && !signed && flag ==> made_from(
                entry.extract->0.from_bool,
                FieldView::Bool(fields.bools[name]),
                value,
            )
            &&& !text && !unsigned && !signed && !flag ==> value is None
        }),
{
}

/// The values that entries took from a span are read in the context afterwards;
/// of entries for the same key the last one that took a value counts. No other
/// key is touched.
pub proof fn law_taken_values_are_read<V, X, P>(
    store: StoreView<TypedValue<V>>,
    entries: Seq<TracingFieldEntry<X, P>>,
    values: Seq<Option<Arc<TypedValue<V>>>>,
    key: Seq<char>,
    i: int,
)
    requires
        values.len() <= entries.len(),
    ensures
        ({
            let after = crate::tracing_bridge::sync_layer::with_extracted(
                Some(store),
                entries,
                values,
            );
            &&& after is Some
            &&& (0 <= i < values.len() && values[i] is Some && entries[i].context_key@ == key
                && forall|j: int|
                i < j < values.len() && entries[j].context_key@ == key ==> (#[trigger] values[j])
                    is None) ==> after->0.get(key) == values[i]
            &&& (forall|j: int|
                0 <= j < values.len() && entries[j].context_key@ == key ==> (#[trigger] values[j])
                    is None) ==> after->0.get(key) == store.get(key)
        }),
    decreases values.len(),
{
    if values.len() > 0 {
        let before = values.drop_last();
        let n = values.len() - 1;
        law_taken_values_are_read(store, entries, before, key, i);
        let so_far = crate::tracing_bridge::sync_layer::with_extracted(
            Some(store),
            entries,
            before,
        );
        assert(values[n] == values.last());
        if values.last() is Some {
            crate::store_laws::law_set_then_get(
                so_far->0,
                entries[n].context_key@,
                values.last()->0,
                key,
            );
        }
        if 0 <= i < n && values[i] is Some && entries[i].context_key@ == key && forall|j: int|
            i < j < values.len() && entries[j].context_key@ == key ==> (#[trigger] values[j])
                is None {
            assert(before[i] == values[i]);
            assert forall|j: int|
                i < j < before.len() && entries[j].context_key@ == key implies (
            #[trigger] before[j]) is None by {
                assert(before[j] == values[j]);
            }
            assert(entries[n].context_key@ == key ==> values[n] is None);
        }
        if forall|j: int|
            0 <= j < values.len() && entries[j].context_key@ == key ==> (#[trigger] values[j])
                is None {
            assert forall|j: int|
                0 <= j < before.len() && entries[j].context_key@ == key implies (
            #[trigger] before[j]) is None by {
                assert(before[j] == values[j]);
            }
            assert(entries[n].context_key@ == key ==> values[n] is None);
        }
    }
}

/// A span that was entered without any field leaves the context as it is, and
/// any other is looked at by every entry.
pub proof fn law_every_entry_looks_at_the_span<V, X: Fn(&FieldValue) -> Option<V>, P>(
    entries: Seq<TracingFieldEntry<X, P>>,
    fields: Option<ExtractedView>,
    values: Seq<Option<Arc<TypedValue<V>>>>,
    i: int,
)
    requires
        crate::tracing_bridge::sync_layer::takes(entries, fields, values),
    ensures
        fields is None ==> values.len() == 0,
        fields is Some ==> values.len() == entries.len(),
        fields is Some && 0 <= i < entries.len() ==> crate::tracing_bridge::tracing_field::extracts(
            entries[i],
            fields->0,
            values[i],
        ),
{
}

/// A value has a text exactly where there is a formatter for its type, and the
/// text is what that formatter answers.
pub proof fn law_text_is_what_the_formatter_answers<V, P: Fn(&V) -> String>(
    formatter: Option<Arc<Formatter<P>>>,
    value: Option<Arc<TypedValue<V>>>,
    text: Option<Seq<char>>,
)
    requires
        crate::tracing_bridge::tracing_field::formats_in(formatter, value, text),
    ensures
        text is Some <==> formatter is Some && value is Some && (formatter->0).type_id == (
        value->0).type_id,
        text is Some ==> exists|answer: String| #[trigger]
            (formatter->0).format.ensures((&(value->0).value,), answer) && answer@ == text->0,
{
}

/// The texts that are there come out under their names.
proof fn lemma_named_texts(names: Seq<Seq<char>>, texts: Seq<Option<Seq<char>>>, i: int, a: int)
    requires
        names.len() >= texts.len(),
    ensures
        ({
            let fields = crate::tracing_bridge::tracing_field::named_texts(names, texts);
            &&& 0 <= i < texts.len() && texts[i] is Some ==> exists|b: int|
                0 <= b < fields.len() && #[trigger] fields[b] == (names[i], texts[i]->0)
            &&& 0 <= a < fields.len() ==> exists|j: int|
                0 <= j < texts.len() && (#[trigger] texts[j]) is Some && fields[a] == (
                    names[j],
                    texts[j]->0,
                )
            &&& fields.len() <= texts.len()
        }),
    decreases texts.len(),
{
    let fields = crate::tracing_bridge::tracing_field::named_texts(names, texts);
    if texts.len() > 0 {
        let before = texts.drop_last();
        let shorter = crate::tracing_bridge::tracing_field::named_texts(names, before);
        let n = texts.len() - 1;
        lemma_named_texts(names, before, i, a);
        assert(texts[n] == texts.last());
        if 0 <= i < n && texts[i] is Some {
            assert(before[i] == texts[i]);
            let b = choose|b: int|
                0 <= b < shorter.len() && #[trigger] shorter[b] == (names[i], before[i]->0);
            assert(fields[b] == (names[i], texts[i]->0));
        }
        if i == n && texts[i] is Some {
            assert(fields[shorter.len() as int] == (names[i], texts[i]->0));
        }
        if 0 <= a < shorter.len() {
            let j = choose|j: int|
                0 <= j < before.len() && (#[trigger] before[j]) is Some && shorter[a] == (
                    names[j],
                    before[j]->0,
                );
            assert(texts[j] is Some && fields[a] == (names[j], texts[j]->0));
        } else if 0 <= a < fields.len() {
            assert(texts[n] is Some && fields[a] == (names[n], texts[n]->0));
        }
    }
}

/// Whether a text under a name is what a formatter answers for the value of a
/// key in a context.
pub open spec fn shows<V, P: Fn(&V) -> String>(
    store: StoreView<TypedValue<V>>,
    key: Seq<char>,
    formatter: Arc<Formatter<P>>,
    text: Seq<char>,
) -> bool {
    &&& store.get(key) is Some
    &&& (store.get(key)->0).type_id == formatter.type_id
    &&& exists|answer: String| #[trigger]
        formatter.format.ensures((&(store.get(key)->0).value,), answer) && answer@ == text
}

/// Log lines show the value of each key that has one of the type that its entry
/// has a formatter for, under the name of the entry, and nothing else.
pub proof fn law_log_fields_show_the_values<V, X, P: Fn(&V) -> String>(
    entries: Seq<TracingFieldEntry<X, P>>,
    store: StoreView<TypedValue<V>>,
    fields: Seq<(Seq<char>, Seq<char>)>,
    i: int,
    a: int,
)
    requires
        crate::tracing_bridge::tracing_field::collects_log_fields(entries, Some(store), fields),
    ensures
        0 <= i < entries.len() && entries[i].fmt_fn is Some && store.get(entries[i].context_key@)
            is Some && (store.get(entries[i].context_key@)->0).type_id == (
        entries[i].fmt_fn->0).type_id ==> exists|b: int|
            0 <= b < fields.len() && (#[trigger] fields[b]).0 == entries[i].log_name@ && shows(
                store,
                entries[i].context_key@,
                entries[i].fmt_fn->0,
                fields[b].1,
            ),
        0 <= a < fields.len() ==> exists|j: int|
            0 <= j < entries.len() && (#[trigger] entries[j]).fmt_fn is Some && fields[a].0
                == entries[j].log_name@ && shows(
                store,
                entries[j].context_key@,
                entries[j].fmt_fn->0,
                fields[a].1,
            ),
        fields.len() <= entries.len(),
{
    let names = crate::tracing_bridge::tracing_field::log_names(entries);
    let texts = choose|texts: Seq<Option<Seq<char>>>|
        {
            &&& texts.len() == entries.len()
            &&& forall|i: int|
                0 <= i < entries.len() ==> crate::tracing_bridge::tracing_field::formats_in(
                    (#[trigger] entries[i]).fmt_fn,
                    context::value_in(Some(store), entries[i].context_key@),
                    texts[i],
                )
            &&& fields == #[trigger] crate::tracing_bridge::tracing_field::named_texts(
                names,
                texts,
            )
        };
    lemma_named_texts(names, texts, i, a);
    if 0 <= i < entries.len() && entries[i].fmt_fn is Some && store.get(entries[i].context_key@)
        is Some && (store.get(entries[i].context_key@)->0).type_id == (
    entries[i].fmt_fn->0).type_id {
        law_text_is_what_the_formatter_answers(
            entries[i].fmt_fn,
            store.get(entries[i].context_key@),
            texts[i],
        );
        let b = choose|b: int|
            0 <= b < fields.len() && #[trigger] fields[b] == (names[i], texts[i]->0);
        assert(fields[b].0 == entries[i].log_name@);
    }
    if 0 <= a < fields.len() {
        let j = choose|j: int|
            0 <= j < texts.len() && (#[trigger] texts[j]) is Some && fields[a] == (
                names[j],
                texts[j]->0,
            );
        law_text_is_what_the_formatter_answers(
            entries[j].fmt_fn,
            store.get(entries[j].context_key@),
            texts[j],
        );
        assert(entries[j].fmt_fn is Some);
    }
}

/// The value of each key that has one of the type that its entry has a span
/// formatter for is recorded into the field of the entry, unless the user set
/// that field; and nothing else is recorded.
pub proof fn law_span_fields_show_the_values<V, X, P: Fn(&V) -> String>(
    entries: Seq<TracingFieldEntry<X, P>>,
    user_set: Set<Seq<char>>,
    store: StoreView<TypedValue<V>>,
    fields: Seq<(Seq<char>, Seq<char>)>,
    i: int,
    a: int,
)
    requires
        crate::tracing_bridge::tracing_field::collects_span_fields(
            entries,
            user_set,
            Some(store),
            fields,
        ),
    ensures
        0 <= i < entries.len() && entries[i].span_fmt_fn is Some && !user_set.contains(
            entries[i].record_field@,
        ) && store.get(entries[i].context_key@) is Some && (store.get(
            entries[i].context_key@,
        )->0).type_id == (entries[i].span_fmt_fn->0).type_id ==> exists|b: int|
            0 <= b < fields.len() && (#[trigger] fields[b]).0 == entries[i].record_field@
                && shows(
                store,
                entries[i].context_key@,
                entries[i].span_fmt_fn->0,
                fields[b].1,
            ),
        0 <= a < fields.len() ==> !user_set.contains(fields[a].0) && exists|j: int|
            0 <= j < entries.len() && (#[trigger] entries[j]).span_fmt_fn is Some && fields[a].0
                == entries[j].record_field@ && shows(
                store,
                entries[j].context_key@,
                entries[j].span_fmt_fn->0,
                fields[a].1,
            ),
        fields.len() <= entries.len(),
{
    let names = crate::tracing_bridge::tracing_field::record_names(entries);
    let texts = choose|texts: Seq<Option<Seq<char>>>|
        {
            &&& texts.len() == entries.len()
            &&& forall|i: int|
                0 <= i < entries.len() ==> crate::tracing_bridge::tracing_field::records(
                    #[trigger] entries[i],
                    user_set,
                    Some(store),
                    texts[i],
                )
            &&& fields == #[trigger] crate::tracing_bridge::tracing_field::named_texts(
                names,
                texts,
            )
        };
    lemma_named_texts(names, texts, i, a);
    if 0 <= i < entries.len() && entries[i].span_fmt_fn is Some && !user_set.contains(
        entries[i].record_field@,
    ) && store.get(entries[i].context_key@) is Some && (store.get(
        entries[i].context_key@,
    )->0).type_id == (entries[i].span_fmt_fn->0).type_id {
        assert(crate::tracing_bridge::tracing_field::records(
            entries[i],
            user_set,
            Some(store),
            texts[i],
        ));
        law_text_is_what_the_formatter_answers(
            entries[i].span_fmt_fn,
            store.get(entries[i].context_key@),
            texts[i],
        );
        let b = choose|b: int|
            0 <= b < fields.len() && #[trigger] fields[b] == (names[i], texts[i]->0);
        assert(fields[b].0 == entries[i].record_field@);
    }
    if 0 <= a < fields.len() {
        let j = choose|j: int|
            0 <= j < texts.len() && (#[trigger] texts[j]) is Some && fields[a] == (
                names[j],
                texts[j]->0,
            );
        assert(crate::tracing_bridge::tracing_field::records(
            entries[j],
            user_set,
            Some(store),
            texts[j],
        ));
        law_text_is_what_the_formatter_answers(
            entries[j].span_fmt_fn,
            store.get(entries[j].context_key@),
            texts[j],
        );
        assert(entries[j].span_fmt_fn is Some);
    }
}

/// The same holds of the keys that have a log field of their own.
pub proof fn law_own_log_fields_show_the_values<V, P: Fn(&V) -> String>(
    entries: Seq<crate::tracing_bridge::log_enrichment::LogFieldEntry<P>>,
    store: StoreView<TypedValue<V>>,
    fields: Seq<(Seq<char>, Seq<char>)>,
    i: int,
    a: int,
)
    requires
        crate::tracing_bridge::log_enrichment::collects(entries, Some(store), fields),
    ensures
        0 <= i < entries.len() && store.get(entries[i].context_key@) is Some && (store.get(
            entries[i].context_key@,
        )->0).type_id == entries[i].log_field.fmt_fn.type_id ==> exists|b: int|
            0 <= b < fields.len() && (#[trigger] fields[b]).0 == entries[i].log_field.name@
                && shows(
                store,
                entries[i].context_key@,
                entries[i].log_field.fmt_fn,
                fields[b].1,
            ),
        0 <= a < fields.len() ==> exists|j: int|
            0 <= j < entries.len() && fields[a].0 == (#[trigger] entries[j]).log_field.name@
                && shows(
                store,
                entries[j].context_key@,
                entries[j].log_field.fmt_fn,
                fields[a].1,
            ),
        fields.len() <= entries.len(),
{
    let names = crate::tracing_bridge::log_enrichment::field_names(entries);
    let texts = choose|texts: Seq<Option<Seq<char>>>|
        {
            &&& texts.len() == entries.len()
            &&& forall|i: int|
                0 <= i < entries.len() ==> crate::tracing_bridge::tracing_field::formats_in(
                    Some((#[trigger] entries[i]).log_field.fmt_fn),
                    context::value_in(Some(store), entries[i].context_key@),
                    texts[i],
                )
            &&& fields == #[trigger] crate::tracing_bridge::tracing_field::named_texts(
                names,
                texts,
            )
        };
    lemma_named_texts(names, texts, i, a);
    if 0 <= i < entries.len() && store.get(entries[i].context_key@) is Some && (store.get(
        entries[i].context_key@,
    )->0).type_id == entries[i].log_field.fmt_fn.type_id {
        law_text_is_what_the_formatter_answers(
            Some(entries[i].log_field.fmt_fn),
            store.get(entries[i].context_key@),
            texts[i],
        );
        let b = choose|b: int|
            0 <= b < fields.len() && #[trigger] fields[b] == (names[i], texts[i]->0);
        assert(fields[b].0 == entries[i].log_field.name@);
    }
    if 0 <= a < fields.len() {
        let j = choose|j: int|
            0 <= j < texts.len() && (#[trigger] texts[j]) is Some && fields[a] == (
                names[j],
                texts[j]->0,
            );
        law_text_is_what_the_formatter_answers(
            Some(entries[j].log_field.fmt_fn),
            store.get(entries[j].context_key@),
            texts[j],
        );
        assert(fields[a].0 == entries[j].log_field.name@);
    }
}

/// In front of a log line each field stands as its name and its text, in order.
pub proof fn law_prefix_is_field_by_field(
    first: Seq<(Seq<char>, Seq<char>)>,
    name: Seq<char>,
    text: Seq<char>,
    second: Seq<(Seq<char>, Seq<char>)>,
)
    ensures
        crate::tracing_bridge::tracing_field::prefix_text(seq![(name, text)]) == name + "="@ + text
            + " "@,
        crate::tracing_bridge::tracing_field::prefix_text(first + second)
            == crate::tracing_bridge::tracing_field::prefix_text(first)
            + crate::tracing_bridge::tracing_field::prefix_text(second),
    decreases second.len(),
{
    let one = seq![(name, text)];
    reveal_with_fuel(crate::tracing_bridge::tracing_field::prefix_text, 2);
    assert(one.drop_last() =~= Seq::<(Seq<char>, Seq<char>)>::empty());
    assert(crate::tracing_bridge::tracing_field::prefix_text(one) =~= name + "="@ + text + " "@);
    if second.len() == 0 {
        assert(first + second =~= first);
        assert(crate::tracing_bridge::tracing_field::prefix_text(first + second)
            =~= crate::tracing_bridge::tracing_field::prefix_text(first)
            + crate::tracing_bridge::tracing_field::prefix_text(second));
    } else {
        law_prefix_is_field_by_field(first, name, text, second.drop_last());
        assert((first + second).drop_last() =~= first + second.drop_last());
        assert((first + second).last() == second.last());
        assert(crate::tracing_bridge::tracing_field::prefix_text(first + second)
            =~= crate::tracing_bridge::tracing_field::prefix_text(first)
            + crate::tracing_bridge::tracing_field::prefix_text(second));
    }
}

/// The entry of a key has what its tracing field has. Where the field names no
/// span field, values are taken from the one named like the key; where it names
/// none to record into, they go into the one named as in log lines.
pub proof fn law_entry_of_a_key<X, P>(key: &'static str, field: TracingField<X, P>)
    ensures
        ({
            let entry = crate::tracing_bridge::tracing_field::entry_of(key, field);
            &&& entry.context_key == key
            &&& entry.log_name == field.log_name
            &&& entry.extract == field.extract
            &&& entry.fmt_fn == field.log_fmt_fn
            &&& entry.span_fmt_fn == field.span_fmt_fn
            &&& field.span_field is Some ==> entry.span_field == field.span_field->0
            &&& field.span_field is None ==> entry.span_field == key
            &&& field.record_as is Some ==> entry.record_field == field.record_as->0
            &&& field.record_as is None ==> entry.record_field == field.log_name
        }),
{
}

/// Every key that is registered with a tracing field has exactly one entry, made
/// of that field, and no other key has one.
pub proof fn law_each_traced_key_has_its_entry<E, D, X, P>(
    registrations: Registrations<E, D, TracingField<X, P>>,
    entries: Seq<TracingFieldEntry<X, P>>,
    key: Seq<char>,
    i: int,
    j: int,
)
    requires
        crate::tracing_bridge::tracing_field::discovered(registrations, entries),
        0 <= i < entries.len(),
        0 <= j < entries.len(),
    ensures
        registrations.contains_key(key) && registrations[key].metadata is Some <==> exists|a: int|
            0 <= a < entries.len() && (#[trigger] entries[a]).context_key@ == key,
        i != j ==> entries[i].context_key@ != entries[j].context_key@,
        registrations.contains_key(entries[i].context_key@),
        registrations[entries[i].context_key@].metadata is Some,
        entries[i] == crate::tracing_bridge::tracing_field::entry_of(
            entries[i].context_key,
            registrations[entries[i].context_key@].metadata->0,
        ),
{
    let keys = choose|keys: Seq<&'static str>|
        {
            &&& keys.len() == entries.len()
            &&& #[trigger] crate::store::key_set(keys) == crate::registry::metadata_set(
                registrations,
            )
            &&& forall|a: int, b: int|
                #![trigger keys[a], keys[b]]
                0 <= a < b < keys.len() ==> keys[a]@ != keys[b]@
            &&& forall|a: int|
                0 <= a < keys.len() ==> #[trigger] entries[a]
                    == crate::tracing_bridge::tracing_field::entry_of(
                    keys[a],
                    registrations[keys[a]@].metadata->0,
                )
        };
    assert(entries[i].context_key == keys[i] && entries[j].context_key == keys[j]);
    if i < j {
        assert(keys[i]@ != keys[j]@);
    } else if j < i {
        assert(keys[j]@ != keys[i]@);
    }
    assert(crate::store::key_set(keys).contains(keys[i]@));
    assert(crate::registry::metadata_set(registrations).contains(keys[i]@));
    if registrations.contains_key(key) && registrations[key].metadata is Some {
        assert(crate::registry::metadata_set(registrations).contains(key));
        assert(crate::store::key_set(keys).contains(key));
        let a = choose|a: int| 0 <= a < keys.len() && (#[trigger] keys[a])@ == key;
        assert(entries[a].context_key@ == key);
    }
    if exists|a: int| 0 <= a < entries.len() && (#[trigger] entries[a]).context_key@ == key {
        let a = choose|a: int| 0 <= a < entries.len() && (#[trigger] entries[a]).context_key@ == key;
        assert(keys[a]@ == key);
        assert(crate::store::key_set(keys).contains(key));
        assert(crate::registry::metadata_set(registrations).contains(key));
    }
}

/// A layer leaves a span alone only where it was told to look at tasks, and then
/// exactly where a task had a context when the span was first entered. That
/// decision is kept, whatever runs when the span is entered again.
pub proof fn law_skipping_is_decided_once(
    layer: SyncDcontextLayer,
    span: SpanView,
    task_active: bool,
    task_active_later: bool,
)
    ensures
        !layer.async_aware ==> !crate::tracing_bridge::sync_layer::skips(
            layer,
            Some(span),
            task_active,
        ),
        layer.async_aware && span.skip is None ==> crate::tracing_bridge::sync_layer::skips(
            layer,
            Some(span),
            task_active,
        ) == task_active,
        layer.async_aware ==> crate::tracing_bridge::sync_layer::skips(
            layer,
            crate::tracing_bridge::sync_layer::decided(layer, Some(span), task_active),
            task_active_later,
        ) == crate::tracing_bridge::sync_layer::skips(layer, Some(span), task_active),
        crate::tracing_bridge::sync_layer::decided(layer, Some(span), task_active) is Some,
        (crate::tracing_bridge::sync_layer::decided(layer, Some(span), task_active)->0).fields
            == span.fields,
        (crate::tracing_bridge::sync_layer::decided(layer, Some(span), task_active)->0).info
            == span.info,
{
}

/// A span that is kept as a value is read under the key for it: what is made of
/// its name, target and level. No other key is touched.
pub proof fn law_span_is_read_as_a_value<V, W: Fn(SpanInfo) -> V>(
    info: SpanInfoView,
    type_id: TypeId,
    make: W,
    store: StoreView<TypedValue<V>>,
    after: Option<StoreView<TypedValue<V>>>,
    other: Seq<char>,
)
    requires
        crate::tracing_bridge::sync_layer::keeps_span_info(
            info,
            type_id,
            make,
            Some(store),
            after,
        ),
        other != SPAN_INFO_KEY@,
    ensures
        after is Some,
        after->0.get(SPAN_INFO_KEY@) is Some,
        (after->0.get(SPAN_INFO_KEY@)->0).type_id == type_id,
        exists|given: SpanInfo| #[trigger]
            make.ensures((given,), (after->0.get(SPAN_INFO_KEY@)->0).value) && given@ == info,
        after->0.get(other) == store.get(other),
{
    let (given, stored) = choose|given: SpanInfo, stored: Arc<TypedValue<V>>|
        {
            &&& given@ == info
            &&& #[trigger] make.ensures((given,), stored.value)
            &&& stored.type_id == type_id
            &&& after == context::with_value(Some(store), SPAN_INFO_KEY@, stored)
        };
    crate::store_laws::law_set_then_get(store, SPAN_INFO_KEY@, stored, other);
    assert(make.ensures((given,), (after->0.get(SPAN_INFO_KEY@)->0).value));
}

/// The first time a span is entered in a task with a context, a scope with its
/// name is entered there: nothing that is read changes, and the name comes last.
pub proof fn law_task_span_enters_a_named_scope<V>(
    span: SpanView,
    store: StoreView<TypedValue<V>>,
    cached: Set<Seq<char>>,
    key: Seq<char>,
)
    requires
        span.async_depth is None,
        store.wf(),
        !store.is_full(),
    ensures
        ({
            let (after, slot) = crate::tracing_bridge::async_layer::span_entered(
                span,
                Some(Some(store)),
                cached,
            );
            &&& after.async_depth == Some((store.current.depth + 1) as usize)
            &&& slot is Some && slot->0 is Some
            &&& (slot->0->0).get(key) == store.get(key)
            &&& (slot->0->0).all_names() == store.all_names().push(span.info.name)
            &&& crate::store_laws::inside(slot->0->0, store)
        }),
        crate::tracing_bridge::async_layer::span_entered::<V>(span, None, cached) == (
            span,
            None::<Option<StoreView<TypedValue<V>>>>,
        ),
{
    crate::store_laws::law_push_keeps_values(store, cached, Some(span.info.name), key);
    crate::store_laws::law_push_adds_name(store, cached, Some(span.info.name));
    crate::store_laws::law_push_goes_inside(store, cached, Some(span.info.name));
}

/// Every key that is registered with a log field has exactly one entry with that
/// field, and no other key has one.
pub proof fn law_each_logged_key_has_its_entry<E, D, P>(
    registrations: Registrations<E, D, crate::tracing_bridge::log_enrichment::LogField<P>>,
    entries: Seq<crate::tracing_bridge::log_enrichment::LogFieldEntry<P>>,
    key: Seq<char>,
    i: int,
    j: int,
)
    requires
        crate::tracing_bridge::log_enrichment::discovered(registrations, entries),
        0 <= i < entries.len(),
        0 <= j < entries.len(),
    ensures
        registrations.contains_key(key) && registrations[key].metadata is Some <==> exists|a: int|
            0 <= a < entries.len() && (#[trigger] entries[a]).context_key@ == key,
        i != j ==> entries[i].context_key@ != entries[j].context_key@,
        registrations.contains_key(entries[i].context_key@),
        registrations[entries[i].context_key@].metadata == Some(entries[i].log_field),
{
    let keys = choose|keys: Seq<&'static str>|
        {
            &&& keys.len() == entries.len()
            &&& #[trigger] crate::store::key_set(keys) == crate::registry::metadata_set(
                registrations,
            )
            &&& forall|a: int, b: int|
                #![trigger keys[a], keys[b]]
                0 <= a < b < keys.len() ==> keys[a]@ != keys[b]@
            &&& forall|a: int|
                0 <= a < keys.len() ==> #[trigger] entries[a] == (
                crate::tracing_bridge::log_enrichment::LogFieldEntry {
                    context_key: keys[a],
                    log_field: registrations[keys[a]@].metadata->0,
                })
        };
    assert(entries[i].context_key == keys[i] && entries[j].context_key == keys[j]);
    if i < j {
        assert(keys[i]@ != keys[j]@);
    } else if j < i {
        assert(keys[j]@ != keys[i]@);
    }
    assert(crate::store::key_set(keys).contains(keys[i]@));
    assert(crate::registry::metadata_set(registrations).contains(keys[i]@));
    if registrations.contains_key(key) && registrations[key].metadata is Some {
        assert(crate::registry::metadata_set(registrations).contains(key));
        assert(crate::store::key_set(keys).contains(key));
        let a = choose|a: int| 0 <= a < keys.len() && (#[trigger] keys[a])@ == key;
        assert(entries[a].context_key@ == key);
    }
    if exists|a: int| 0 <= a < entries.len() && (#[trigger] entries[a]).context_key@ == key {
        let a = choose|a: int| 0 <= a < entries.len() && (#[trigger] entries[a]).context_key@ == key;
        assert(keys[a]@ == key);
        assert(crate::store::key_set(keys).contains(key));
        assert(crate::registry::metadata_set(registrations).contains(key));
    }
}

/// Entering a span that is not left alone: first the values that entries took
/// from it are set, then the span itself where that is asked for, and what is
/// recorded into its fields is what the context shows after that, leaving alone
/// the fields that the user set.
pub proof fn law_entering_a_span<
    V,
    X: Fn(&FieldValue) -> Option<V>,
    P: Fn(&V) -> String,
    W: Fn(SpanInfo) -> V,
>(
    layer: SyncDcontextLayer,
    span: SpanView,
    entries: Seq<TracingFieldEntry<X, P>>,
    info_type: TypeId,
    make: W,
    before: Option<StoreView<TypedValue<V>>>,
    after: Option<StoreView<TypedValue<V>>>,
    to_record: Seq<(Seq<char>, Seq<char>)>,
)
    requires
        crate::tracing_bridge::sync_layer::enters(
            layer,
            span,
            entries,
            info_type,
            make,
            before,
            after,
            to_record,
        ),
    ensures
        exists|values: Seq<Option<Arc<TypedValue<V>>>>|
            {
                let taken = crate::tracing_bridge::sync_layer::with_extracted(
                    before,
                    entries,
                    values,
                );
                &&& #[trigger] crate::tracing_bridge::sync_layer::takes(
                    entries,
                    span.fields,
                    values,
                )
                &&& !layer.include_span_info ==> after == taken
                &&& layer.include_span_info ==> crate::tracing_bridge::sync_layer::keeps_span_info(
                    span.info,
                    info_type,
                    make,
                    taken,
                    after,
                )
            },
        span.fields is Some ==> crate::tracing_bridge::tracing_field::collects_span_fields(
            entries,
            span.fields->0.user_set,
            after,
            to_record,
        ),
        span.fields is None ==> crate::tracing_bridge::tracing_field::collects_span_fields(
            entries,
            Set::empty(),
            after,
            to_record,
        ),
{
    let extracted = choose|extracted: Option<StoreView<TypedValue<V>>>|
        {
            &&& #[trigger] crate::tracing_bridge::sync_layer::applies(
                entries,
                span.fields,
                before,
                extracted,
            )
            &&& if layer.include_span_info {
                crate::tracing_bridge::sync_layer::keeps_span_info(
                    span.info,
                    info_type,
                    make,
                    extracted,
                    after,
                )
            } else {
                after == extracted
            }
            &&& crate::tracing_bridge::tracing_field::collects_span_fields(
                entries,
                crate::tracing_bridge::sync_layer::user_set_of(span.fields),
                after,
                to_record,
            )
        };
    let values = choose|values: Seq<Option<Arc<TypedValue<V>>>>| #[trigger]
        crate::tracing_bridge::sync_layer::takes(entries, span.fields, values) && extracted
            == crate::tracing_bridge::sync_layer::with_extracted(before, entries, values);
    assert(crate::tracing_bridge::sync_layer::takes(entries, span.fields, values));
}

/// The layer that enters a scope for each span: the values that entries took
/// from the span are set in a new scope with its name, and the span itself where
/// that is asked for.
pub proof fn law_scope_of_a_span<
    V,
    X: Fn(&FieldValue) -> Option<V>,
    P,
    W: Fn(SpanInfo) -> V,
>(
    layer: crate::tracing_bridge::layer::DcontextLayer,
    span: SpanView,
    entries: Seq<TracingFieldEntry<X, P>>,
    cached: Set<Seq<char>>,
    info_type: TypeId,
    make: W,
    store: StoreView<TypedValue<V>>,
    after: Option<StoreView<TypedValue<V>>>,
)
    requires
        crate::tracing_bridge::layer::enters_scope(
            layer,
            Some(span),
            entries,
            cached,
            info_type,
            make,
            Some(store),
            after,
        ),
        store.wf(),
        !store.is_full(),
    ensures
        ({
            let entered = store.push(cached, Some(span.info.name));
            &&& entered.all_names() == store.all_names().push(span.info.name)
            &&& exists|values: Seq<Option<Arc<TypedValue<V>>>>|
                {
                    let taken = crate::tracing_bridge::sync_layer::with_extracted(
                        Some(entered),
                        entries,
                        values,
                    );
                    &&& #[trigger] crate::tracing_bridge::sync_layer::takes(
                        entries,
                        span.fields,
                        values,
                    )
                    &&& !layer.include_span_info ==> after == taken
                    &&& layer.include_span_info
                        ==> crate::tracing_bridge::sync_layer::keeps_span_info(
                        span.info,
                        info_type,
                        make,
                        taken,
                        after,
                    )
                }
        }),
{
    let entered = context::entered(Some(store), cached, Some(span.info.name));
    crate::store_laws::law_push_adds_name(store, cached, Some(span.info.name));
    let extracted = choose|extracted: Option<StoreView<TypedValue<V>>>|
        {
            &&& #[trigger] crate::tracing_bridge::sync_layer::applies(
                entries,
                span.fields,
                entered,
                extracted,
            )
            &&& if layer.include_span_info {
                crate::tracing_bridge::sync_layer::keeps_span_info(
                    span.info,
                    info_type,
                    make,
                    extracted,
                    after,
                )
            } else {
                after == extracted
            }
        };
    let values = choose|values: Seq<Option<Arc<TypedValue<V>>>>| #[trigger]
        crate::tracing_bridge::sync_layer::takes(entries, span.fields, values) && extracted
            == crate::tracing_bridge::sync_layer::with_extracted(entered, entries, values);
    assert(crate::tracing_bridge::sync_layer::takes(entries, span.fields, values));
}

} // verus!
