//! What the layers have in common: keeping the field values of spans.

use vstd::prelude::*;

use crate::tracing_bridge::field_mapping::{
    ExtractedFields, ExtractedView, FieldExtractor, FieldView, Recording,
};
use crate::tracing_bridge::tracing_field::TracingFieldEntry;

verus! {

/// The span fields that values are taken from.
pub open spec fn extract_fields<X, P>(entries: Seq<TracingFieldEntry<X, P>>) -> Seq<Seq<char>>
    decreases entries.len(),
{
    if entries.len() == 0 {
        Seq::empty()
    } else {
        let before = extract_fields(entries.drop_last());
        if entries.last().extract is Some {
            before.push(entries.last().span_field@)
        } else {
            before
        }
    }
}

/// The span fields that values are recorded into.
pub open spec fn record_fields<X, P>(entries: Seq<TracingFieldEntry<X, P>>) -> Seq<Seq<char>>
    decreases entries.len(),
{
    if entries.len() == 0 {
        Seq::empty()
    } else {
        let before = record_fields(entries.drop_last());
        if entries.last().span_fmt_fn is Some {
            before.push(entries.last().record_field@)
        } else {
            before
        }
    }
}

/// List the span fields that values are taken from.
pub fn extract_names<X, P>(entries: &Vec<TracingFieldEntry<X, P>>) -> (r: Vec<&'static str>)
    ensures
        crate::tracing_bridge::field_mapping::name_views(r@) == extract_fields(entries@),
{
    let mut names: Vec<&'static str> = Vec::new();
    let mut i: usize = 0;
    assert(entries@.take(0) =~= Seq::<TracingFieldEntry<X, P>>::empty());
    assert(crate::tracing_bridge::field_mapping::name_views(names@) =~= extract_fields(
        entries@.take(0),
    ));
    while i < entries.len()
        invariant
            i <= entries@.len(),
            crate::tracing_bridge::field_mapping::name_views(names@) == extract_fields(
                entries@.take(i as int),
            ),
        decreases entries@.len() - i,
    {
        let ghost before = crate::tracing_bridge::field_mapping::name_views(names@);
        proof {
            let next = entries@.take(i + 1);
            assert(next.drop_last() =~= entries@.take(i as int));
            assert(next.last() == entries@[i as int]);
        }
        if entries[i].extract.is_some() {
            let name = entries[i].span_field;
            names.push(name);
            assert(crate::tracing_bridge::field_mapping::name_views(names@) =~= before.push(
                name@,
            ));
        }
        i = i + 1;
    }
    assert(entries@.take(i as int) =~= entries@);
    names
}

/// List the span fields that values are recorded into.
pub fn record_names<X, P>(entries: &Vec<TracingFieldEntry<X, P>>) -> (r: Vec<&'static str>)
    ensures
        crate::tracing_bridge::field_mapping::name_views(r@) == record_fields(entries@),
{
    let mut names: Vec<&'static str> = Vec::new();
    let mut i: usize = 0;
    assert(entries@.take(0) =~= Seq::<TracingFieldEntry<X, P>>::empty());
    assert(crate::tracing_bridge::field_mapping::name_views(names@) =~= record_fields(
        entries@.take(0),
    ));
    while i < entries.len()
        invariant
            i <= entries@.len(),
            crate::tracing_bridge::field_mapping::name_views(names@) == record_fields(
                entries@.take(i as int),
            ),
        decreases entries@.len() - i,
    {
        let ghost before = crate::tracing_bridge::field_mapping::name_views(names@);
        proof {
            let next = entries@.take(i + 1);
            assert(next.drop_last() =~= entries@.take(i as int));
            assert(next.last() == entries@[i as int]);
        }
        if entries[i].span_fmt_fn.is_some() {
            let name = entries[i].record_field;
            names.push(name);
            assert(crate::tracing_bridge::field_mapping::name_views(names@) =~= before.push(
                name@,
            ));
        }
        i = i + 1;
    }
    assert(entries@.take(i as int) =~= entries@);
    names
}

/// The values that a recording has for the fields that are asked for. Fields
/// that are recorded into count as set by the user where they have a value.
pub open spec fn asked_for<X, P>(
    entries: Seq<TracingFieldEntry<X, P>>,
    recording: Seq<(Seq<char>, FieldView)>,
) -> ExtractedView {
    ExtractedView::empty().record_all(
        extract_fields(entries) + record_fields(entries),
        recording,
    ).marked(record_fields(entries))
}

/// What is kept with a new span: nothing where no field has a value.
pub open spec fn kept_for_new_span<X, P>(
    entries: Seq<TracingFieldEntry<X, P>>,
    recording: Seq<(Seq<char>, FieldView)>,
) -> Option<ExtractedView> {
    let values = asked_for(entries, recording);
    if values.has_no_values() {
        None
    } else {
        Some(values)
    }
}

/// What is kept with a span after a later recording. What the layer records
/// itself does not count.
pub open spec fn kept_after_record<X, P>(
    self_recording: bool,
    entries: Seq<TracingFieldEntry<X, P>>,
    recording: Seq<(Seq<char>, FieldView)>,
    kept: Option<ExtractedView>,
) -> Option<ExtractedView> {
    let values = asked_for(entries, recording);
    if self_recording || values.has_no_values() {
        kept
    } else {
        match kept {
            Some(existing) => Some(existing.merged(values)),
            None => Some(values),
        }
    }
}

/// Without fields to ask for a recording leaves nothing.
proof fn lemma_nothing_asked(recording: Seq<(Seq<char>, FieldView)>)
    ensures
        ExtractedView::empty().record_all(Seq::empty(), recording) == ExtractedView::empty(),
    decreases recording.len(),
{
    if recording.len() > 0 {
        lemma_nothing_asked(recording.drop_last());
    }
}

/// The values that a recording has for given fields.
pub fn extract_recorded(
    targets: &Vec<&'static str>,
    marked: &Vec<&'static str>,
    recording: &Recording,
) -> (r: ExtractedFields)
    ensures
        r@ == ExtractedView::empty().record_all(
            crate::tracing_bridge::field_mapping::name_views(targets@),
            crate::tracing_bridge::field_mapping::recording_view(recording@),
        ).marked(crate::tracing_bridge::field_mapping::name_views(marked@)),
{
    let mut extractor = FieldExtractor::new(targets);
    extractor.record_all(recording);
    let mut extracted = extractor.extracted;
    extracted.mark_all(marked);
    extracted
}

/// The values that a recording has for the fields that are asked for; none
/// where no fields are.
fn extract_asked_for<X, P>(
    entries: &Vec<TracingFieldEntry<X, P>>,
    recording: &Recording,
) -> (r: Option<ExtractedFields>)
    ensures
        match r {
            Some(fields) => fields@ == asked_for(
                entries@,
                crate::tracing_bridge::field_mapping::recording_view(recording@),
            ),
            None => asked_for(
                entries@,
                crate::tracing_bridge::field_mapping::recording_view(recording@),
            ).has_no_values(),
        },
{
    let extract = extract_names(entries);
    let record = record_names(entries);
    if extract.len() == 0 && record.len() == 0 {
        proof {
            let list = crate::tracing_bridge::field_mapping::recording_view(recording@);
            lemma_nothing_asked(list);
            assert(extract_fields(entries@) + record_fields(entries@) =~= Seq::<
                Seq<char>,
            >::empty());
        }
        return None;
    }
    let mut all_target: Vec<&'static str> = Vec::new();
    let ghost first = crate::tracing_bridge::field_mapping::name_views(extract@);
    let ghost second = crate::tracing_bridge::field_mapping::name_views(record@);
    append_names(&mut all_target, &extract);
    append_names(&mut all_target, &record);
    assert(crate::tracing_bridge::field_mapping::name_views(all_target@) =~= first + second);
    Some(extract_recorded(&all_target, &record, recording))
}

fn append_names(out: &mut Vec<&'static str>, names: &Vec<&'static str>)
    ensures
        final(out)@ == old(out)@ + names@,
{
    let mut i: usize = 0;
    while i < names.len()
        invariant
            i <= names@.len(),
            out@ =~= old(out)@ + names@.take(i as int),
        decreases names@.len() - i,
    {
        out.push(names[i]);
        i = i + 1;
    }
    assert(names@.take(i as int) =~= names@);
}

/// What is kept with a new span.
pub fn extract_span_fields<X, P>(
    entries: &Vec<TracingFieldEntry<X, P>>,
    recording: &Recording,
) -> (r: Option<ExtractedFields>)
    ensures
        crate::tracing_bridge::span_info::fields_view(r) == kept_for_new_span(
            entries@,
            crate::tracing_bridge::field_mapping::recording_view(recording@),
        ),
{
    match extract_asked_for(entries, recording) {
        Some(fields) => if !fields.is_empty() {
            Some(fields)
        } else {
            None
        },
        None => None,
    }
}

/// What is kept with a span after a later recording.
pub fn merge_recorded_fields<X, P>(
    self_recording: bool,
    entries: &Vec<TracingFieldEntry<X, P>>,
    recording: &Recording,
    kept: Option<ExtractedFields>,
) -> (r: Option<ExtractedFields>)
    ensures
        crate::tracing_bridge::span_info::fields_view(r) == kept_after_record(
            self_recording,
            entries@,
            crate::tracing_bridge::field_mapping::recording_view(recording@),
            crate::tracing_bridge::span_info::fields_view(kept),
        ),
{
    if self_recording {
        return kept;
    }
    match extract_asked_for(entries, recording) {
        Some(fields) => if !fields.is_empty() {
            match kept {
                Some(existing) => {
                    let mut existing = existing;
                    existing.merge(fields);
                    Some(existing)
                },
                None => Some(fields),
            }
        } else {
            kept
        },
        None => kept,
    }
}

/// What a layer records itself is never taken for a value that the user set.
pub proof fn law_own_recording_does_not_count<X, P>(
    entries: Seq<TracingFieldEntry<X, P>>,
    recording: Seq<(Seq<char>, FieldView)>,
    kept: Option<ExtractedView>,
)
    ensures
        kept_after_record(true, entries, recording, kept) == kept,
{
}

/// A field counts as set by the user exactly where it is one that values are
/// recorded into and the span brought a value for it.
pub proof fn law_user_set_fields<X, P>(
    entries: Seq<TracingFieldEntry<X, P>>,
    recording: Seq<(Seq<char>, FieldView)>,
    name: Seq<char>,
)
    ensures
        asked_for(entries, recording).user_set.contains(name) == (record_fields(entries).contains(
            name,
        ) && asked_for(entries, recording).holds(name)),
{
    let targets = extract_fields(entries) + record_fields(entries);
    lemma_record_marks_nothing(targets, recording);
}

proof fn lemma_record_marks_nothing(
    targets: Seq<Seq<char>>,
    recording: Seq<(Seq<char>, FieldView)>,
)
    ensures
        ExtractedView::empty().record_all(targets, recording).user_set == Set::<
            Seq<char>,
        >::empty(),
    decreases recording.len(),
{
    if recording.len() > 0 {
        lemma_record_marks_nothing(targets, recording.drop_last());
    }
}

} // verus!
