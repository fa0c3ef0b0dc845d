//! What is kept of the fields of spans.

use vstd::prelude::*;

use crate::tracing_bridge::field_mapping::{ExtractedView, FieldView};
use crate::tracing_bridge::layer_common::{
    asked_for, extract_fields, kept_after_record, kept_for_new_span, record_fields,
};
use crate::tracing_bridge::tracing_field::TracingFieldEntry;

verus! {

/// Whether some entry takes values from a span field.
pub open spec fn taken_by_some<X, P>(
    entries: Seq<TracingFieldEntry<X, P>>,
    name: Seq<char>,
) -> bool {
    exists|e: int|
        0 <= e < entries.len() && (#[trigger] entries[e]).extract is Some && entries[e].span_field@
            == name
}

/// Whether some entry records values into a span field.
pub open spec fn filled_by_some<X, P>(
    entries: Seq<TracingFieldEntry<X, P>>,
    name: Seq<char>,
) -> bool {
    exists|e: int|
        0 <= e < entries.len() && (#[trigger] entries[e]).span_fmt_fn is Some
            && entries[e].record_field@ == name
}

/// The fields that are asked for are those that some entry takes values from,
/// and those that some entry records values into.
pub proof fn law_asked_fields<X, P>(entries: Seq<TracingFieldEntry<X, P>>, name: Seq<char>)
    ensures
        extract_fields(entries).contains(name) <==> taken_by_some(entries, name),
        record_fields(entries).contains(name) <==> filled_by_some(entries, name),
    decreases entries.len(),
{
    if entries.len() > 0 {
        let before = entries.drop_last();
        let n = entries.len() - 1;
        law_asked_fields(before, name);
        assert(entries[n] == entries.last());
        if taken_by_some(before, name) {
            let e = choose|e: int|
                0 <= e < before.len() && (#[trigger] before[e]).extract is Some
                    && before[e].span_field@ == name;
            assert(entries[e].extract is Some && entries[e].span_field@ == name);
        }
        if taken_by_some(entries, name) && !taken_by_some(before, name) {
            let e = choose|e: int|
                0 <= e < entries.len() && (#[trigger] entries[e]).extract is Some
                    && entries[e].span_field@ == name;
            if e < n {
                assert(before[e] == entries[e]);
            }
        }
        if filled_by_some(before, name) {
            let e = choose|e: int|
                0 <= e < before.len() && (#[trigger] before[e]).span_fmt_fn is Some
                    && before[e].record_field@ == name;
            assert(entries[e].span_fmt_fn is Some && entries[e].record_field@ == name);
        }
        if filled_by_some(entries, name) && !filled_by_some(before, name) {
            let e = choose|e: int|
                0 <= e < entries.len() && (#[trigger] entries[e]).span_fmt_fn is Some
                    && entries[e].record_field@ == name;
            if e < n {
                assert(before[e] == entries[e]);
            }
        }
        lemma_pushed(extract_fields(before), entries.last().span_field@, name);
        lemma_pushed(record_fields(before), entries.last().record_field@, name);
    }
}

proof fn lemma_pushed(list: Seq<Seq<char>>, last: Seq<char>, name: Seq<char>)
    ensures
        list.push(last).contains(name) <==> list.contains(name) || last == name,
{
    let longer = list.push(last);
    assert(longer[list.len() as int] == last);
    if list.contains(name) {
        let i = choose|i: int| 0 <= i < list.len() && list[i] == name;
        assert(longer[i] == name);
    }
    if longer.contains(name) {
        let i = choose|i: int| 0 <= i < longer.len() && longer[i] == name;
        if i < list.len() {
            assert(list[i] == name);
        }
    }
}

proof fn lemma_targets<X, P>(entries: Seq<TracingFieldEntry<X, P>>, name: Seq<char>)
    ensures
        (extract_fields(entries) + record_fields(entries)).contains(name) <==> taken_by_some(
            entries,
            name,
        ) || filled_by_some(entries, name),
{
    law_asked_fields(entries, name);
    let a = extract_fields(entries);
    let b = record_fields(entries);
    let all = a + b;
    if a.contains(name) {
        let i = choose|i: int| 0 <= i < a.len() && a[i] == name;
        assert(all[i] == name);
    }
    if b.contains(name) {
        let i = choose|i: int| 0 <= i < b.len() && b[i] == name;
        assert(all[a.len() + i] == name);
    }
    if all.contains(name) {
        let i = choose|i: int| 0 <= i < all.len() && all[i] == name;
        if i < a.len() {
            assert(a[i] == name);
        } else {
            assert(b[i - a.len()] == name);
        }
    }
}

/// Two recordings know the same of a field.
pub open spec fn same_field(a: ExtractedView, b: ExtractedView, name: Seq<char>) -> bool {
    &&& crate::key_map::lookup(a.strings, name) == crate::key_map::lookup(b.strings, name)
    &&& crate::key_map::lookup(a.u64s, name) == crate::key_map::lookup(b.u64s, name)
    &&& crate::key_map::lookup(a.i64s, name) == crate::key_map::lookup(b.i64s, name)
    &&& crate::key_map::lookup(a.bools, name) == crate::key_map::lookup(b.bools, name)
}

/// What is recorded of other fields does not matter to a field.
proof fn lemma_other_fields(
    start: ExtractedView,
    targets: Seq<Seq<char>>,
    recording: Seq<(Seq<char>, FieldView)>,
    from: int,
    name: Seq<char>,
)
    requires
        0 <= from <= recording.len(),
        forall|j: int| from <= j < recording.len() ==> (#[trigger] recording[j]).0 != name,
    ensures
        same_field(
            start.record_all(targets, recording),
            start.record_all(targets, recording.take(from)),
            name,
        ),
    decreases recording.len(),
{
    if from == recording.len() {
        assert(recording.take(from) =~= recording);
    } else {
        let before = recording.drop_last();
        assert forall|j: int| from <= j < before.len() implies (#[trigger] before[j]).0 != name by {
            assert(before[j] == recording[j]);
        }
        lemma_other_fields(start, targets, before, from, name);
        assert(before.take(from) =~= recording.take(from));
        assert(recording[recording.len() - 1] == recording.last());
    }
}

/// A value of a plain kind that a span brought last for a field that is asked
/// for is what is kept for the field, under its kind.
pub proof fn law_last_plain_value_is_kept<X, P>(
    entries: Seq<TracingFieldEntry<X, P>>,
    recording: Seq<(Seq<char>, FieldView)>,
    name: Seq<char>,
    i: int,
)
    requires
        taken_by_some(entries, name) || filled_by_some(entries, name),
        0 <= i < recording.len(),
        recording[i].0 == name,
        forall|j: int| i < j < recording.len() ==> (#[trigger] recording[j]).0 != name,
    ensures
        ({
            let kept = asked_for(entries, recording);
            match recording[i].1 {
                FieldView::Str(text) => kept.strings.contains_key(name) && kept.strings[name]
                    == text,
                FieldView::U64(number) => kept.u64s.contains_key(name) && kept.u64s[name]
                    == number,
                FieldView::I64(number) => kept.i64s.contains_key(name) && kept.i64s[name]
                    == number,
                FieldView::Bool(flag) => kept.bools.contains_key(name) && kept.bools[name] == flag,
                FieldView::Debug(text) => kept.holds(name) && ((forall|j: int|
                    0 <= j < i ==> (#[trigger] recording[j]).0 != name)
                    ==> kept.strings.contains_key(name) && kept.strings[name] == text),
            }
        }),
        kept_for_new_span(entries, recording) == Some(asked_for(entries, recording)),
        recording[i].1 is Debug ==> same_field(
            asked_for(entries, recording),
            asked_for(entries, recording.take(i)),
            name,
        ) || !asked_for(entries, recording.take(i)).holds(name),
{
    let targets = extract_fields(entries) + record_fields(entries);
    let empty = ExtractedView::empty();
    let upto = recording.take(i + 1);
    lemma_targets(entries, name);
    lemma_other_fields(empty, targets, recording, i + 1, name);
    assert(upto.drop_last() =~= recording.take(i));
    assert(upto.last() == recording[i]);
    if forall|j: int| 0 <= j < i ==> (#[trigger] recording[j]).0 != name {
        let before = recording.take(i);
        assert forall|j: int| 0 <= j < before.len() implies (#[trigger] before[j]).0 != name by {
            assert(before[j] == recording[j]);
        }
        lemma_other_fields(empty, targets, before, 0, name);
        assert(before.take(0) =~= Seq::<(Seq<char>, FieldView)>::empty());
    }
    let kept = asked_for(entries, recording);
    assert(kept.holds(name));
    assert(kept.strings.contains_key(name) ==> kept.strings != Map::<
        Seq<char>,
        Seq<char>,
    >::empty());
    assert(kept.u64s.contains_key(name) ==> kept.u64s != Map::<Seq<char>, u64>::empty());
    assert(kept.i64s.contains_key(name) ==> kept.i64s != Map::<Seq<char>, i64>::empty());
    assert(kept.bools.contains_key(name) ==> kept.bools != Map::<Seq<char>, bool>::empty());
}

/// Nothing is kept for a field that no entry asks for, nor for one that the span
/// did not bring.
pub proof fn law_other_fields_are_not_kept<X, P>(
    entries: Seq<TracingFieldEntry<X, P>>,
    recording: Seq<(Seq<char>, FieldView)>,
    name: Seq<char>,
)
    requires
        (!taken_by_some(entries, name) && !filled_by_some(entries, name)) || forall|j: int|
            0 <= j < recording.len() ==> (#[trigger] recording[j]).0 != name,
    ensures
        !asked_for(entries, recording).strings.contains_key(name),
        !asked_for(entries, recording).u64s.contains_key(name),
        !asked_for(entries, recording).i64s.contains_key(name),
        !asked_for(entries, recording).bools.contains_key(name),
        !asked_for(entries, recording).user_set.contains(name),
{
    let targets = extract_fields(entries) + record_fields(entries);
    lemma_targets(entries, name);
    if !taken_by_some(entries, name) && !filled_by_some(entries, name) {
        lemma_not_asked(targets, recording, name);
    } else {
        lemma_other_fields(ExtractedView::empty(), targets, recording, 0, name);
        assert(recording.take(0) =~= Seq::<(Seq<char>, FieldView)>::empty());
    }
    lemma_no_marks(ExtractedView::empty(), targets, recording);
}

proof fn lemma_not_asked(
    targets: Seq<Seq<char>>,
    recording: Seq<(Seq<char>, FieldView)>,
    name: Seq<char>,
)
    requires
        !targets.contains(name),
    ensures
        same_field(
            ExtractedView::empty().record_all(targets, recording),
            ExtractedView::empty(),
            name,
        ),
    decreases recording.len(),
{
    if recording.len() > 0 {
        lemma_not_asked(targets, recording.drop_last(), name);
    }
}

proof fn lemma_no_marks(
    start: ExtractedView,
    targets: Seq<Seq<char>>,
    recording: Seq<(Seq<char>, FieldView)>,
)
    ensures
        start.record_all(targets, recording).user_set == start.user_set,
    decreases recording.len(),
{
    if recording.len() > 0 {
        lemma_no_marks(start, targets, recording.drop_last());
    }
}

/// A field counts as set by the user exactly where values are recorded into it
/// and the span brought a value for it.
pub proof fn law_set_by_the_user<X, P>(
    entries: Seq<TracingFieldEntry<X, P>>,
    recording: Seq<(Seq<char>, FieldView)>,
    name: Seq<char>,
)
    ensures
        asked_for(entries, recording).user_set.contains(name) <==> filled_by_some(entries, name)
            && exists|j: int| 0 <= j < recording.len() && (#[trigger] recording[j]).0 == name,
{
    let targets = extract_fields(entries) + record_fields(entries);
    lemma_no_marks(ExtractedView::empty(), targets, recording);
    law_asked_fields(entries, name);
    if filled_by_some(entries, name) && exists|j: int|
        0 <= j < recording.len() && (#[trigger] recording[j]).0 == name {
        let i = lemma_last_of(recording, name, recording.len() as int);
        law_last_plain_value_is_kept(entries, recording, name, i);
        assert(ExtractedView::empty().record_all(targets, recording).holds(name));
    } else if !filled_by_some(entries, name) {
    } else {
        assert forall|j: int| 0 <= j < recording.len() implies (#[trigger] recording[j]).0
            != name by {}
        law_other_fields_are_not_kept(entries, recording, name);
    }
}

proof fn lemma_last_of(recording: Seq<(Seq<char>, FieldView)>, name: Seq<char>, upto: int) -> (i:
    int)
    requires
        0 <= upto <= recording.len(),
        exists|j: int| 0 <= j < upto && (#[trigger] recording[j]).0 == name,
        forall|j: int| upto <= j < recording.len() ==> (#[trigger] recording[j]).0 != name,
    ensures
        0 <= i < recording.len(),
        recording[i].0 == name,
        forall|j: int| i < j < recording.len() ==> (#[trigger] recording[j]).0 != name,
    decreases upto,
{
    if recording[upto - 1].0 == name {
        upto - 1
    } else {
        lemma_last_of(recording, name, upto - 1)
    }
}

/// The fields that are kept with a span, or none at all.
pub open spec fn fields_or_none(kept: Option<ExtractedView>) -> ExtractedView {
    match kept {
        Some(fields) => fields,
        None => ExtractedView {
            strings: Map::empty(),
            u64s: Map::empty(),
            i64s: Map::empty(),
            bools: Map::empty(),
            user_set: Set::empty(),
        },
    }
}

/// The later of two values of a field.
pub open spec fn later_or_earlier<T>(
    later: Map<Seq<char>, T>,
    earlier: Map<Seq<char>, T>,
    name: Seq<char>,
) -> Option<T> {
    if later.contains_key(name) {
        Some(later[name])
    } else if earlier.contains_key(name) {
        Some(earlier[name])
    } else {
        None
    }
}

/// After a later recording that the layer did not make itself, what is kept for
/// a field is what the later recording has for it, else what was kept before:
/// for each kind of value. A field stays set by the user once it was.
pub proof fn law_later_recording_wins<X, P>(
    entries: Seq<TracingFieldEntry<X, P>>,
    recording: Seq<(Seq<char>, FieldView)>,
    kept: Option<ExtractedView>,
    name: Seq<char>,
)
    ensures
        ({
            let later = asked_for(entries, recording);
            let earlier = fields_or_none(kept);
            let now = fields_or_none(kept_after_record(false, entries, recording, kept));
            &&& crate::key_map::lookup(now.strings, name) == later_or_earlier(
                later.strings,
                earlier.strings,
                name,
            )
            &&& crate::key_map::lookup(now.u64s, name) == later_or_earlier(
                later.u64s,
                earlier.u64s,
                name,
            )
            &&& crate::key_map::lookup(now.i64s, name) == later_or_earlier(
                later.i64s,
                earlier.i64s,
                name,
            )
            &&& crate::key_map::lookup(now.bools, name) == later_or_earlier(
                later.bools,
                earlier.bools,
                name,
            )
            &&& now.user_set.contains(name) == (later.user_set.contains(name)
                || earlier.user_set.contains(name))
        }),
{
    let targets = extract_fields(entries) + record_fields(entries);
    lemma_no_marks(ExtractedView::empty(), targets, recording);
}

/// What the two layers keep of a later recording of the fields that values are
/// taken from is the later value of each field, else the earlier one.
pub proof fn law_scoping_layer_keeps_the_later_value<X, P>(
    entries: Seq<TracingFieldEntry<X, P>>,
    recording: Seq<(Seq<char>, FieldView)>,
    kept: Option<ExtractedView>,
    name: Seq<char>,
)
    ensures
        ({
            let later = crate::tracing_bridge::layer::taken_from(entries, recording);
            let earlier = fields_or_none(kept);
            let now = fields_or_none(
                crate::tracing_bridge::layer::kept_with_span(entries, recording, kept, true),
            );
            &&& crate::key_map::lookup(now.strings, name) == later_or_earlier(
                later.strings,
                earlier.strings,
                name,
            )
            &&& crate::key_map::lookup(now.u64s, name) == later_or_earlier(
                later.u64s,
                earlier.u64s,
                name,
            )
            &&& crate::key_map::lookup(now.i64s, name) == later_or_earlier(
                later.i64s,
                earlier.i64s,
                name,
            )
            &&& crate::key_map::lookup(now.bools, name) == later_or_earlier(
                later.bools,
                earlier.bools,
                name,
            )
        }),
{
}

/// What the layer that enters scopes keeps with a new span are the values of the
/// fields that values are taken from, and nothing where there are none.
pub proof fn law_scoping_layer_keeps_a_new_span<X, P>(
    entries: Seq<TracingFieldEntry<X, P>>,
    recording: Seq<(Seq<char>, FieldView)>,
    name: Seq<char>,
)
    ensures
        ({
            let kept = crate::tracing_bridge::layer::kept_with_span(
                entries,
                recording,
                None,
                false,
            );
            let values = crate::tracing_bridge::layer::taken_from(entries, recording);
            &&& same_field(fields_or_none(kept), values, name)
            &&& kept is Some ==> kept->0 == values
            &&& values.holds(name) ==> kept is Some
        }),
{
    let values = crate::tracing_bridge::layer::taken_from(entries, recording);
    assert(!Map::<Seq<char>, Seq<char>>::empty().contains_key(name));
    assert(!Map::<Seq<char>, u64>::empty().contains_key(name));
    assert(!Map::<Seq<char>, i64>::empty().contains_key(name));
    assert(!Map::<Seq<char>, bool>::empty().contains_key(name));
}

/// Recording one after the other is recording both.
proof fn lemma_record_both(
    start: ExtractedView,
    targets: Seq<Seq<char>>,
    first: Seq<(Seq<char>, FieldView)>,
    second: Seq<(Seq<char>, FieldView)>,
)
    ensures
        start.record_all(targets, first + second) == start.record_all(targets, first).record_all(
            targets,
            second,
        ),
    decreases second.len(),
{
    if second.len() == 0 {
        assert(first + second =~= first);
    } else {
        lemma_record_both(start, targets, first, second.drop_last());
        assert((first + second).drop_last() =~= first + second.drop_last());
        assert((first + second).last() == second.last());
    }
}

/// Recording on top of what is there is the same as recording apart and taking
/// that over, where no value comes as a debug text.
proof fn lemma_record_apart(
    start: ExtractedView,
    targets: Seq<Seq<char>>,
    recording: Seq<(Seq<char>, FieldView)>,
)
    requires
        forall|j: int| 0 <= j < recording.len() ==> !((#[trigger] recording[j]).1 is Debug),
    ensures
        start.record_all(targets, recording) == start.merged(
            ExtractedView::empty().record_all(targets, recording),
        ),
    decreases recording.len(),
{
    let empty = ExtractedView::empty();
    let apart = empty.record_all(targets, recording);
    if recording.len() == 0 {
        assert(start.merged(apart) =~= start);
    } else {
        let before = recording.drop_last();
        assert forall|j: int| 0 <= j < before.len() implies !((#[trigger] before[j]).1 is Debug) by {
            assert(before[j] == recording[j]);
        }
        lemma_record_apart(start, targets, before);
        assert(recording[recording.len() - 1] == recording.last());
        let so_far = empty.record_all(targets, before);
        let (name, value) = recording.last();
        if targets.contains(name) {
            assert(start.merged(so_far).with(name, value) =~= start.merged(
                so_far.with(name, value),
            ));
        }
    }
}

/// Recording the fields of a span in two parts keeps the same values of each
/// kind as recording them at once. (A debug text of the second part is left out:
/// it counts there even where the first part has a value for its field.)
pub proof fn law_recording_in_parts<X, P>(
    entries: Seq<TracingFieldEntry<X, P>>,
    first: Seq<(Seq<char>, FieldView)>,
    second: Seq<(Seq<char>, FieldView)>,
)
    requires
        forall|j: int| 0 <= j < second.len() ==> !((#[trigger] second[j]).1 is Debug),
    ensures
        kept_after_record(false, entries, second, kept_for_new_span(entries, first))
            == kept_for_new_span(entries, first + second),
        crate::tracing_bridge::layer::kept_with_span(
            entries,
            second,
            crate::tracing_bridge::layer::kept_with_span(entries, first, None, false),
            true,
        ) == crate::tracing_bridge::layer::kept_with_span(entries, first + second, None, false),
{
    let empty = ExtractedView::empty();
    let fields = record_fields(entries);
    let targets = extract_fields(entries) + fields;
    lemma_record_both(empty, targets, first, second);
    lemma_record_apart(empty.record_all(targets, first), targets, second);
    lemma_no_marks(empty, targets, first);
    lemma_no_marks(empty, targets, second);
    let a = empty.record_all(targets, first);
    let b = empty.record_all(targets, second);
    assert(a.merged(b).marked(fields) =~= a.marked(fields).merged(b.marked(fields)));
    lemma_merge_with_nothing(a.marked(fields), b.marked(fields));
    let taken = extract_fields(entries);
    lemma_record_both(empty, taken, first, second);
    lemma_record_apart(empty.record_all(taken, first), taken, second);
    lemma_no_marks(empty, taken, first);
    lemma_no_marks(empty, taken, second);
    lemma_merge_with_nothing(empty.record_all(taken, first), empty.record_all(taken, second));
}

proof fn lemma_merge_with_nothing(a: ExtractedView, b: ExtractedView)
    requires
        forall|name: Seq<char>| #[trigger] a.user_set.contains(name) ==> a.holds(name),
        forall|name: Seq<char>| #[trigger] b.user_set.contains(name) ==> b.holds(name),
    ensures
        b.has_no_values() ==> a.merged(b) == a,
        a.has_no_values() ==> a.merged(b) == b,
        a.merged(b).has_no_values() == (a.has_no_values() && b.has_no_values()),
{
    let both = a.merged(b);
    if b.has_no_values() {
        assert(both =~= a);
    }
    if a.has_no_values() {
        assert(both =~= b);
    }
    if both.has_no_values() {
        assert forall|k: Seq<char>| !a.strings.dom().contains(k) && !b.strings.dom().contains(
            k,
        ) by {
            assert(!both.strings.dom().contains(k));
        }
        assert forall|k: Seq<char>| !a.u64s.dom().contains(k) && !b.u64s.dom().contains(k) by {
            assert(!both.u64s.dom().contains(k));
        }
        assert forall|k: Seq<char>| !a.i64s.dom().contains(k) && !b.i64s.dom().contains(k) by {
            assert(!both.i64s.dom().contains(k));
        }
        assert forall|k: Seq<char>| !a.bools.dom().contains(k) && !b.bools.dom().contains(k) by {
            assert(!both.bools.dom().contains(k));
        }
        assert(a.strings =~= Map::empty() && b.strings =~= Map::empty());
        assert(a.u64s =~= Map::empty() && b.u64s =~= Map::empty());
        assert(a.i64s =~= Map::empty() && b.i64s =~= Map::empty());
        assert(a.bools =~= Map::empty() && b.bools =~= Map::empty());
    }
}

/// The layer that enters scopes keeps of the fields that values are taken from
/// what the other layer keeps of them, and of other fields nothing.
pub proof fn law_layers_keep_the_same<X, P>(
    entries: Seq<TracingFieldEntry<X, P>>,
    recording: Seq<(Seq<char>, FieldView)>,
    name: Seq<char>,
)
    ensures
        taken_by_some(entries, name) ==> same_field(
            crate::tracing_bridge::layer::taken_from(entries, recording),
            asked_for(entries, recording),
            name,
        ),
        !taken_by_some(entries, name) ==> same_field(
            crate::tracing_bridge::layer::taken_from(entries, recording),
            ExtractedView::empty(),
            name,
        ),
{
    let taken = extract_fields(entries);
    let all = taken + record_fields(entries);
    law_asked_fields(entries, name);
    lemma_targets(entries, name);
    if taken_by_some(entries, name) {
        lemma_same_targets(taken, all, recording, name);
    } else {
        lemma_not_asked(taken, recording, name);
    }
}

proof fn lemma_same_targets(
    some: Seq<Seq<char>>,
    all: Seq<Seq<char>>,
    recording: Seq<(Seq<char>, FieldView)>,
    name: Seq<char>,
)
    requires
        some.contains(name),
        all.contains(name),
    ensures
        same_field(
            ExtractedView::empty().record_all(some, recording),
            ExtractedView::empty().record_all(all, recording),
            name,
        ),
    decreases recording.len(),
{
    if recording.len() > 0 {
        lemma_same_targets(some, all, recording.drop_last(), name);
    }
}

} // verus!
