//! Fields that put values of the context into log lines.

use std::any::TypeId;
use std::sync::Arc;
use vstd::prelude::*;

use crate::cell::ContextCell;
use crate::context::get_raw_value;
use crate::registry::{Registrations, Registry};
use crate::store::StoreView;
use crate::tracing_bridge::tracing_field::{format_value, write_prefix, Formatter};
use crate::value::TypedValue;

verus! {

/// Puts the value of a key into log lines.
pub struct LogField<P> {
    /// The name in log lines.
    pub name: &'static str,
    /// Makes the text of a value.
    pub fmt_fn: Arc<Formatter<P>>,
}

impl<P> LogField<P> {
    /// Show values of a type as text for display.
    pub fn display(name: &'static str, type_id: TypeId, format: P) -> (r: Self)
        ensures
            r.name == name,
            *r.fmt_fn == (Formatter { type_id, format }),
    {
        LogField::custom(name, type_id, format)
    }

    /// Show values of a type as text for debugging.
    pub fn debug(name: &'static str, type_id: TypeId, format: P) -> (r: Self)
        ensures
            r.name == name,
            *r.fmt_fn == (Formatter { type_id, format }),
    {
        LogField::custom(name, type_id, format)
    }

    /// Show values of a type as whatever text `format` makes.
    pub fn custom(name: &'static str, type_id: TypeId, format: P) -> (r: Self)
        ensures
            r.name == name,
            *r.fmt_fn == (Formatter { type_id, format }),
    {
        LogField { name, fmt_fn: Arc::new(Formatter { type_id, format }) }
    }

    /// The name in log lines.
    pub fn name(&self) -> (r: &'static str)
        ensures
            r == self.name,
    {
        self.name
    }

    /// The text of a value; none where it is of another type.
    pub fn format<V>(&self, value: &TypedValue<V>) -> (r: Option<String>) where
        P: Fn(&V) -> String,

        requires
            crate::tracing_bridge::tracing_field::formatter_ready::<V, P>(Some(self.fmt_fn)),
        ensures
            crate::tracing_bridge::tracing_field::formats(
                Some(self.fmt_fn),
                *value,
                crate::scope::name_view(r),
            ),
    {
        format_value(&Some(Arc::clone(&self.fmt_fn)), value)
    }
}

/// A key with its log field.
pub struct LogFieldEntry<P> {
    pub context_key: &'static str,
    pub log_field: LogField<P>,
}

fn share_field<P>(key: &'static str, field: &LogField<P>) -> (r: LogFieldEntry<P>)
    ensures
        r == (LogFieldEntry { context_key: key, log_field: *field }),
{
    LogFieldEntry {
        context_key: key,
        log_field: LogField { name: field.name, fmt_fn: Arc::clone(&field.fmt_fn) },
    }
}

/// The entries of all keys that have a log field: one for each, in no
/// particular order.
pub open spec fn discovered<E, D, P>(
    registrations: Registrations<E, D, LogField<P>>,
    entries: Seq<LogFieldEntry<P>>,
) -> bool {
    exists|keys: Seq<&'static str>|
        {
            &&& keys.len() == entries.len()
            &&& #[trigger] crate::store::key_set(keys) == crate::registry::metadata_set(
                registrations,
            )
            &&& forall|a: int, b: int|
                #![trigger keys[a], keys[b]]
                0 <= a < b < keys.len() ==> keys[a]@ != keys[b]@
            &&& forall|a: int|
                0 <= a < keys.len() ==> #[trigger] entries[a] == (LogFieldEntry {
                    context_key: keys[a],
                    log_field: registrations[keys[a]@].metadata->0,
                })
        }
}

/// Find all keys that have a log field.
pub fn discover_log_fields<E, D, P>(registry: &Registry<'_, E, D, LogField<P>>) -> (r: Vec<
    LogFieldEntry<P>,
>)
    ensures
        discovered(registry@, r@),
{
    let entries = registry.keys_with_metadata(share_field);
    proof {
        let keys = choose|keys: Seq<&'static str>|
            {
                &&& keys.len() == entries@.len()
                &&& #[trigger] crate::store::key_set(keys) == crate::registry::metadata_set(
                    registry@,
                )
                &&& forall|a: int, b: int|
                    #![trigger keys[a], keys[b]]
                    0 <= a < b < keys.len() ==> keys[a]@ != keys[b]@
                &&& forall|a: int|
                    0 <= a < keys.len() ==> share_field.ensures(
                        (#[trigger] keys[a], &registry@[keys[a]@].metadata->0),
                        entries@[a],
                    )
            };
        assert forall|a: int| 0 <= a < keys.len() implies #[trigger] entries@[a] == (
        LogFieldEntry {
            context_key: keys[a],
            log_field: registry@[keys[a]@].metadata->0,
        }) by {
            assert(share_field.ensures(
                (keys[a], &registry@[keys[a]@].metadata->0),
                entries@[a],
            ));
        }
        assert(crate::store::key_set(keys) == crate::registry::metadata_set(registry@));
    }
    entries
}

/// The names of entries in log lines.
pub open spec fn field_names<P>(entries: Seq<LogFieldEntry<P>>) -> Seq<Seq<char>> {
    Seq::new(entries.len(), |i: int| entries[i].log_field.name@)
}

/// Whether these can be the log fields of a context.
pub open spec fn collects<V, P: Fn(&V) -> String>(
    entries: Seq<LogFieldEntry<P>>,
    cell: Option<StoreView<TypedValue<V>>>,
    fields: Seq<(Seq<char>, Seq<char>)>,
) -> bool {
    exists|texts: Seq<Option<Seq<char>>>|
        {
            &&& texts.len() == entries.len()
            &&& forall|i: int|
                0 <= i < entries.len() ==> crate::tracing_bridge::tracing_field::formats_in(
                    Some((#[trigger] entries[i]).log_field.fmt_fn),
                    crate::context::value_in(cell, entries[i].context_key@),
                    texts[i],
                )
            &&& fields == #[trigger] crate::tracing_bridge::tracing_field::named_texts(
                field_names(entries),
                texts,
            )
        }
}

/// The formatters of entries can be called with any value.
pub open spec fn fields_ready<V, P: Fn(&V) -> String>(entries: Seq<LogFieldEntry<P>>) -> bool {
    forall|i: int|
        0 <= i < entries.len() ==> crate::tracing_bridge::tracing_field::formatter_ready::<V, P>(
            Some((#[trigger] entries[i]).log_field.fmt_fn),
        )
}

/// The log fields of the context: the name and the text of each entry whose key
/// has a value.
pub fn collect_log_fields<V, P: Fn(&V) -> String>(
    entries: &Vec<LogFieldEntry<P>>,
    cell: &ContextCell<V>,
) -> (r: Vec<(&'static str, String)>)
    requires
        fields_ready::<V, P>(entries@),
    ensures
        collects(entries@, cell@, crate::tracing_bridge::tracing_field::pair_views(r@)),
{
    let mut result: Vec<(&'static str, String)> = Vec::new();
    let ghost mut texts: Seq<Option<Seq<char>>> = Seq::empty();
    let mut i: usize = 0;
    assert(crate::tracing_bridge::tracing_field::pair_views(result@)
        =~= crate::tracing_bridge::tracing_field::named_texts(field_names(entries@), texts));
    while i < entries.len()
        invariant
            fields_ready::<V, P>(entries@),
            i <= entries@.len(),
            texts.len() == i,
            forall|j: int|
                0 <= j < i ==> crate::tracing_bridge::tracing_field::formats_in(
                    Some((#[trigger] entries@[j]).log_field.fmt_fn),
                    crate::context::value_in(cell@, entries@[j].context_key@),
                    texts[j],
                ),
            crate::tracing_bridge::tracing_field::pair_views(result@)
                == crate::tracing_bridge::tracing_field::named_texts(field_names(entries@), texts),
        decreases entries@.len() - i,
    {
        let entry = &entries[i];
        let ghost before = crate::tracing_bridge::tracing_field::pair_views(result@);
        let ghost texts_before = texts;
        let text = match get_raw_value(cell, entry.context_key) {
            Some(found) => entry.log_field.format(&*found),
            None => None,
        };
        proof {
            texts = texts.push(crate::scope::name_view(text));
            assert(texts.drop_last() =~= texts_before);
        }
        match text {
            Some(formatted) => {
                result.push((entry.log_field.name, formatted));
                assert(crate::tracing_bridge::tracing_field::pair_views(result@) =~= before.push(
                    (entry.log_field.name@, formatted@),
                ));
            },
            None => {},
        }
        i = i + 1;
    }
    result
}

/// A formatter of log lines that puts the log fields known when it was made in
/// front.
pub struct WithContextFields<F, P> {
    pub inner: F,
    pub fields: Vec<LogFieldEntry<P>>,
}

impl<F, P> WithContextFields<F, P> {
    /// Put log fields in front of what another formatter writes.
    pub fn wrap<E, D>(inner: F, registry: &Registry<'_, E, D, LogField<P>>) -> (r: Self)
        ensures
            r.inner == inner,
            discovered(registry@, r.fields@),
    {
        WithContextFields { inner, fields: discover_log_fields(registry) }
    }

    /// What stands in front of a log line.
    pub fn prefix<V>(&self, cell: &ContextCell<V>) -> (r: String) where P: Fn(&V) -> String
        requires
            fields_ready::<V, P>(self.fields@),
        ensures
            exists|fields: Seq<(Seq<char>, Seq<char>)>| #[trigger]
                collects(self.fields@, cell@, fields) && r@
                    == crate::tracing_bridge::tracing_field::prefix_text(fields),
    {
        let fields = collect_log_fields(&self.fields, cell);
        assert(collects(
            self.fields@,
            cell@,
            crate::tracing_bridge::tracing_field::pair_views(fields@),
        ));
        write_prefix(&fields)
    }
}

} // verus!
