//! What connects a key with span fields and log lines.
//!
//! A value goes both ways: from a span field into the context when a span is
//! entered, and from the context into log lines and span fields.

use std::any::TypeId;
use std::sync::Arc;
use vstd::prelude::*;
use vstd::string::*;

use crate::cell::ContextCell;
use crate::context::get_raw_value;
use crate::key_map::KeyMap;
use crate::registry::{Registrations, Registry};
use crate::store::StoreView;
use crate::tracing_bridge::field_mapping::{ExtractedFields, ExtractedView, FieldValue, FieldView};
use crate::value::TypedValue;

verus! {

/// Makes a text of values of one type.
pub struct Formatter<P> {
    pub type_id: TypeId,
    pub format: P,
}

/// Makes a value of one type out of a span field.
pub struct Extractor<X> {
    pub type_id: TypeId,
    pub extract: X,
}

/// Makes values out of span fields, by the kind of the field.
pub struct ExtractFns<X> {
    pub from_str: Option<Arc<Extractor<X>>>,
    pub from_u64: Option<Arc<Extractor<X>>>,
    pub from_i64: Option<Arc<Extractor<X>>>,
    pub from_bool: Option<Arc<Extractor<X>>>,
}

/// What connects a key with span fields and log lines.
pub struct TracingField<X, P> {
    /// The name in log lines.
    pub log_name: &'static str,
    /// The span field that values are taken from; else the key itself.
    pub span_field: Option<&'static str>,
    /// The span field that values are recorded into; else the name in log
    /// lines.
    pub record_as: Option<&'static str>,
    pub extract: Option<ExtractFns<X>>,
    /// Makes the text for log lines.
    pub log_fmt_fn: Option<Arc<Formatter<P>>>,
    /// Makes the text for span fields.
    pub span_fmt_fn: Option<Arc<Formatter<P>>>,
}

/// Whether formatting a value can give this text. Only values of the
/// formatter's type have one.
pub open spec fn formats<V, P: Fn(&V) -> String>(
    formatter: Option<Arc<Formatter<P>>>,
    value: TypedValue<V>,
    text: Option<Seq<char>>,
) -> bool {
    match formatter {
        Some(made_for) => if made_for.type_id == value.type_id {
            exists|answer: String| #[trigger]
                made_for.format.ensures((&value.value,), answer) && text == Some(answer@)
        } else {
            text is None
        },
        None => text is None,
    }
}

/// A formatter can be called with any value.
pub open spec fn formatter_ready<V, P: Fn(&V) -> String>(
    formatter: Option<Arc<Formatter<P>>>,
) -> bool {
    forall|value: V|
        formatter is Some ==> (#[trigger] (formatter->0).format.requires((&value,)))
}

/// Make a text of a value.
pub fn format_value<V, P: Fn(&V) -> String>(
    formatter: &Option<Arc<Formatter<P>>>,
    value: &TypedValue<V>,
) -> (r: Option<String>)
    requires
        formatter_ready::<V, P>(*formatter),
    ensures
        formats(*formatter, *value, crate::scope::name_view(r)),
{
    match formatter {
        Some(made_for) => if value.is_type(&made_for.type_id) {
            let text = (made_for.format)(&value.value);
            assert(made_for.format.ensures((&value.value,), text));
            Some(text)
        } else {
            None
        },
        None => None,
    }
}

fn share_formatter<P>(formatter: &Option<Arc<Formatter<P>>>) -> (r: Option<Arc<Formatter<P>>>)
    ensures
        r == *formatter,
{
    match formatter {
        Some(made_for) => Some(Arc::clone(made_for)),
        None => None,
    }
}

fn share_extractor<X>(extractor: &Option<Arc<Extractor<X>>>) -> (r: Option<Arc<Extractor<X>>>)
    ensures
        r == *extractor,
{
    match extractor {
        Some(made_for) => Some(Arc::clone(made_for)),
        None => None,
    }
}

impl<X, P> TracingField<X, P> {
    /// Start from a name in log lines.
    pub fn builder(log_name: &'static str) -> (r: TracingFieldBuilder<X, P>)
        ensures
            r == TracingFieldBuilder::<X, P>::fresh(log_name),
    {
        TracingFieldBuilder {
            log_name,
            span_field: None,
            record_as: None,
            from_str: None,
            from_u64: None,
            from_i64: None,
            from_bool: None,
            log_fmt_fn: None,
            span_fmt_fn: None,
        }
    }

    /// The name in log lines.
    pub fn log_name(&self) -> (r: &'static str)
        ensures
            r == self.log_name,
    {
        self.log_name
    }

    /// The span field that values are taken from, where it is not the key.
    pub fn span_field(&self) -> (r: Option<&'static str>)
        ensures
            r == self.span_field,
    {
        self.span_field
    }

    /// The span field that values are recorded into.
    pub fn record_field(&self) -> (r: &'static str)
        ensures
            r == (match self.record_as {
                Some(name) => name,
                None => self.log_name,
            }),
    {
        match self.record_as {
            Some(name) => name,
            None => self.log_name,
        }
    }

    /// Whether values are taken from span fields.
    pub fn has_extract(&self) -> (r: bool)
        ensures
            r == (self.extract is Some),
    {
        self.extract.is_some()
    }

    /// Whether values go into log lines.
    pub fn has_log_enrich(&self) -> (r: bool)
        ensures
            r == (self.log_fmt_fn is Some),
    {
        self.log_fmt_fn.is_some()
    }

    /// Whether values are recorded into span fields.
    pub fn has_span_record(&self) -> (r: bool)
        ensures
            r == (self.span_fmt_fn is Some),
    {
        self.span_fmt_fn.is_some()
    }

    /// Whether values go into log lines or span fields.
    pub fn has_enrich(&self) -> (r: bool)
        ensures
            r == (self.log_fmt_fn is Some || self.span_fmt_fn is Some),
    {
        self.has_log_enrich() || self.has_span_record()
    }

    /// The text of a value for log lines.
    pub fn format<V>(&self, value: &TypedValue<V>) -> (r: Option<String>) where
        P: Fn(&V) -> String,

        requires
            formatter_ready::<V, P>(self.log_fmt_fn),
        ensures
            formats(self.log_fmt_fn, *value, crate::scope::name_view(r)),
    {
        format_value(&self.log_fmt_fn, value)
    }

    /// The text of a value for span fields.
    pub fn format_for_span<V>(&self, value: &TypedValue<V>) -> (r: Option<String>) where
        P: Fn(&V) -> String,

        requires
            formatter_ready::<V, P>(self.span_fmt_fn),
        ensures
            formats(self.span_fmt_fn, *value, crate::scope::name_view(r)),
    {
        format_value(&self.span_fmt_fn, value)
    }
}

/// Builds a [`TracingField`].
pub struct TracingFieldBuilder<X, P> {
    pub log_name: &'static str,
    pub span_field: Option<&'static str>,
    pub record_as: Option<&'static str>,
    pub from_str: Option<Arc<Extractor<X>>>,
    pub from_u64: Option<Arc<Extractor<X>>>,
    pub from_i64: Option<Arc<Extractor<X>>>,
    pub from_bool: Option<Arc<Extractor<X>>>,
    pub log_fmt_fn: Option<Arc<Formatter<P>>>,
    pub span_fmt_fn: Option<Arc<Formatter<P>>>,
}

/// An extractor that is held.
pub open spec fn holds_extractor<X>(
    slot: Option<Arc<Extractor<X>>>,
    type_id: TypeId,
    extract: X,
) -> bool {
    slot matches Some(held) && *held == (Extractor { type_id, extract })
}

/// A formatter that is held.
pub open spec fn holds_formatter<P>(
    slot: Option<Arc<Formatter<P>>>,
    type_id: TypeId,
    format: P,
) -> bool {
    slot matches Some(held) && *held == (Formatter { type_id, format })
}

/// One step of building a [`TracingField`].
pub enum BuilderCall<X, P> {
    SpanField(&'static str),
    RecordAs(&'static str),
    FromStr(Arc<Extractor<X>>),
    FromU64(Arc<Extractor<X>>),
    FromI64(Arc<Extractor<X>>),
    FromBool(Arc<Extractor<X>>),
    Enrich(Arc<Formatter<P>>),
    EnrichLog(Arc<Formatter<P>>),
    EnrichSpan(Arc<Formatter<P>>),
}

/// What a step of building settles.
pub enum BuilderSlot {
    SpanField,
    RecordAs,
    FromStr,
    FromU64,
    FromI64,
    FromBool,
    Log,
    Span,
}

impl<X, P> BuilderCall<X, P> {
    /// Whether the step settles this.
    pub open spec fn settles(self, slot: BuilderSlot) -> bool {
        match slot {
            BuilderSlot::SpanField => self is SpanField,
            BuilderSlot::RecordAs => self is RecordAs,
            BuilderSlot::FromStr => self is FromStr,
            BuilderSlot::FromU64 => self is FromU64,
            BuilderSlot::FromI64 => self is FromI64,
            BuilderSlot::FromBool => self is FromBool,
            BuilderSlot::Log => self is Enrich || self is EnrichLog,
            BuilderSlot::Span => self is Enrich || self is EnrichSpan,
        }
    }

    /// Whether the step is about taking values from span fields.
    pub open spec fn is_extract(self) -> bool {
        self is FromStr || self is FromU64 || self is FromI64 || self is FromBool
    }

    /// Whether the step is about putting values into log lines or span fields.
    pub open spec fn is_enrich(self) -> bool {
        self is Enrich || self is EnrichLog || self is EnrichSpan
    }

    /// The name that was given.
    pub open spec fn name(self) -> Option<&'static str> {
        match self {
            BuilderCall::SpanField(name) => Some(name),
            BuilderCall::RecordAs(name) => Some(name),
            _ => None,
        }
    }

    /// The extractor that was given.
    pub open spec fn extractor(self) -> Option<Arc<Extractor<X>>> {
        match self {
            BuilderCall::FromStr(extractor) => Some(extractor),
            BuilderCall::FromU64(extractor) => Some(extractor),
            BuilderCall::FromI64(extractor) => Some(extractor),
            BuilderCall::FromBool(extractor) => Some(extractor),
            _ => None,
        }
    }

    /// The formatter that was given.
    pub open spec fn formatter(self) -> Option<Arc<Formatter<P>>> {
        match self {
            BuilderCall::Enrich(formatter) => Some(formatter),
            BuilderCall::EnrichLog(formatter) => Some(formatter),
            BuilderCall::EnrichSpan(formatter) => Some(formatter),
            _ => None,
        }
    }
}

/// The last of some steps that settles something.
pub open spec fn last_settling<X, P>(calls: Seq<BuilderCall<X, P>>, slot: BuilderSlot) -> Option<
    BuilderCall<X, P>,
>
    decreases calls.len(),
{
    if calls.len() == 0 {
        None
    } else if calls.last().settles(slot) {
        Some(calls.last())
    } else {
        last_settling(calls.drop_last(), slot)
    }
}

/// The name that the last step about it gave.
pub open spec fn last_name<X, P>(calls: Seq<BuilderCall<X, P>>, slot: BuilderSlot) -> Option<
    &'static str,
> {
    match last_settling(calls, slot) {
        Some(call) => call.name(),
        None => None,
    }
}

/// The extractor that the last step about it gave.
pub open spec fn last_extractor<X, P>(calls: Seq<BuilderCall<X, P>>, slot: BuilderSlot) -> Option<
    Arc<Extractor<X>>,
> {
    match last_settling(calls, slot) {
        Some(call) => call.extractor(),
        None => None,
    }
}

/// The formatter that the last step about it gave.
pub open spec fn last_formatter<X, P>(calls: Seq<BuilderCall<X, P>>, slot: BuilderSlot) -> Option<
    Arc<Formatter<P>>,
> {
    match last_settling(calls, slot) {
        Some(call) => call.formatter(),
        None => None,
    }
}

impl<X, P> TracingFieldBuilder<X, P> {
    /// A builder that was given nothing but the name in log lines.
    pub open spec fn fresh(log_name: &'static str) -> Self {
        TracingFieldBuilder {
            log_name,
            span_field: None,
            record_as: None,
            from_str: None,
            from_u64: None,
            from_i64: None,
            from_bool: None,
            log_fmt_fn: None,
            span_fmt_fn: None,
        }
    }

    /// The builder after a step.
    pub open spec fn after(self, call: BuilderCall<X, P>) -> Self {
        match call {
            BuilderCall::SpanField(name) => TracingFieldBuilder { span_field: Some(name), ..self },
            BuilderCall::RecordAs(name) => TracingFieldBuilder { record_as: Some(name), ..self },
            BuilderCall::FromStr(made) => TracingFieldBuilder { from_str: Some(made), ..self },
            BuilderCall::FromU64(made) => TracingFieldBuilder { from_u64: Some(made), ..self },
            BuilderCall::FromI64(made) => TracingFieldBuilder { from_i64: Some(made), ..self },
            BuilderCall::FromBool(made) => TracingFieldBuilder { from_bool: Some(made), ..self },
            BuilderCall::Enrich(made) => TracingFieldBuilder {
                log_fmt_fn: Some(made),
                span_fmt_fn: Some(made),
                ..self
            },
            BuilderCall::EnrichLog(made) => TracingFieldBuilder {
                log_fmt_fn: Some(made),
                ..self
            },
            BuilderCall::EnrichSpan(made) => TracingFieldBuilder {
                span_fmt_fn: Some(made),
                ..self
            },
        }
    }

    /// The builder after some steps.
    pub open spec fn after_all(self, calls: Seq<BuilderCall<X, P>>) -> Self
        decreases calls.len(),
    {
        if calls.len() == 0 {
            self
        } else {
            self.after_all(calls.drop_last()).after(calls.last())
        }
    }

    /// The field that the builder makes.
    pub open spec fn built(self) -> TracingField<X, P> {
        TracingField {
            log_name: self.log_name,
            span_field: self.span_field,
            record_as: self.record_as,
            extract: if self.from_str is Some || self.from_u64 is Some || self.from_i64 is Some
                || self.from_bool is Some {
                Some(
                    ExtractFns {
                        from_str: self.from_str,
                        from_u64: self.from_u64,
                        from_i64: self.from_i64,
                        from_bool: self.from_bool,
                    },
                )
            } else {
                None
            },
            log_fmt_fn: self.log_fmt_fn,
            span_fmt_fn: self.span_fmt_fn,
        }
    }

    /// Take values from this span field instead of the one named like the key.
    pub fn span_field(self, name: &'static str) -> (r: Self)
        ensures
            r == self.after(BuilderCall::SpanField(name)),
    {
        TracingFieldBuilder { span_field: Some(name), ..self }
    }

    /// Record values into this span field instead of the one named as in log
    /// lines.
    pub fn record_as(self, name: &'static str) -> (r: Self)
        ensures
            r == self.after(BuilderCall::RecordAs(name)),
    {
        TracingFieldBuilder { record_as: Some(name), ..self }
    }

    /// Take values from text fields.
    pub fn extract_from_str(self, type_id: TypeId, extract: X) -> (r: Self)
        ensures
            holds_extractor(r.from_str, type_id, extract),
            r == self.after(BuilderCall::FromStr(r.from_str->0)),
    {
        TracingFieldBuilder { from_str: Some(Arc::new(Extractor { type_id, extract })), ..self }
    }

    /// Take values from unsigned number fields.
    pub fn extract_from_u64(self, type_id: TypeId, extract: X) -> (r: Self)
        ensures
            holds_extractor(r.from_u64, type_id, extract),
            r == self.after(BuilderCall::FromU64(r.from_u64->0)),
    {
        TracingFieldBuilder { from_u64: Some(Arc::new(Extractor { type_id, extract })), ..self }
    }

    /// Take values from signed number fields.
    pub fn extract_from_i64(self, type_id: TypeId, extract: X) -> (r: Self)
        ensures
            holds_extractor(r.from_i64, type_id, extract),
            r == self.after(BuilderCall::FromI64(r.from_i64->0)),
    {
        TracingFieldBuilder { from_i64: Some(Arc::new(Extractor { type_id, extract })), ..self }
    }

    /// Take values from truth value fields.
    pub fn extract_from_bool(self, type_id: TypeId, extract: X) -> (r: Self)
        ensures
            holds_extractor(r.from_bool, type_id, extract),
            r == self.after(BuilderCall::FromBool(r.from_bool->0)),
    {
        TracingFieldBuilder { from_bool: Some(Arc::new(Extractor { type_id, extract })), ..self }
    }

    /// Put values into log lines and span fields, as text for display.
    pub fn enrich_display(self, type_id: TypeId, format: P) -> (r: Self)
        ensures
            holds_formatter(r.log_fmt_fn, type_id, format),
            r == self.after(BuilderCall::Enrich(r.log_fmt_fn->0)),
    {
        self.enrich_custom(type_id, format)
    }

    /// Put values into log lines and span fields, as text for debugging.
    pub fn enrich_debug(self, type_id: TypeId, format: P) -> (r: Self)
        ensures
            holds_formatter(r.log_fmt_fn, type_id, format),
            r == self.after(BuilderCall::Enrich(r.log_fmt_fn->0)),
    {
        self.enrich_custom(type_id, format)
    }

    /// Put values into log lines and span fields, as whatever text `format`
    /// makes.
    pub fn enrich_custom(self, type_id: TypeId, format: P) -> (r: Self)
        ensures
            holds_formatter(r.log_fmt_fn, type_id, format),
            r == self.after(BuilderCall::Enrich(r.log_fmt_fn->0)),
    {
        let formatter = Arc::new(Formatter { type_id, format });
        TracingFieldBuilder {
            log_fmt_fn: Some(Arc::clone(&formatter)),
            span_fmt_fn: Some(formatter),
            ..self
        }
    }

    /// Put values into log lines only.
    pub fn enrich_log_display(self, type_id: TypeId, format: P) -> (r: Self)
        ensures
            holds_formatter(r.log_fmt_fn, type_id, format),
            r == self.after(BuilderCall::EnrichLog(r.log_fmt_fn->0)),
    {
        TracingFieldBuilder { log_fmt_fn: Some(Arc::new(Formatter { type_id, format })), ..self }
    }

    /// Put values into span fields only.
    pub fn enrich_span_display(self, type_id: TypeId, format: P) -> (r: Self)
        ensures
            holds_formatter(r.span_fmt_fn, type_id, format),
            r == self.after(BuilderCall::EnrichSpan(r.span_fmt_fn->0)),
    {
        TracingFieldBuilder { span_fmt_fn: Some(Arc::new(Formatter { type_id, format })), ..self }
    }

    /// The finished field. Values are taken from span fields where any
    /// extractor was given.
    pub fn build(self) -> (r: TracingField<X, P>)
        ensures
            r == self.built(),
    {
        let extract = if self.from_str.is_some() || self.from_u64.is_some()
            || self.from_i64.is_some() || self.from_bool.is_some() {
            Some(
                ExtractFns {
                    from_str: self.from_str,
                    from_u64: self.from_u64,
                    from_i64: self.from_i64,
                    from_bool: self.from_bool,
                },
            )
        } else {
            None
        };
        TracingField {
            log_name: self.log_name,
            span_field: self.span_field,
            record_as: self.record_as,
            extract,
            log_fmt_fn: self.log_fmt_fn,
            span_fmt_fn: self.span_fmt_fn,
        }
    }
}

/// A step that settles something is there where the last such step is.
proof fn lemma_last_settling<X, P>(calls: Seq<BuilderCall<X, P>>, slot: BuilderSlot)
    ensures
        last_settling(calls, slot) is Some <==> exists|i: int|
            0 <= i < calls.len() && (#[trigger] calls[i]).settles(slot),
        last_settling(calls, slot) matches Some(call) ==> call.settles(slot),
    decreases calls.len(),
{
    if calls.len() > 0 {
        let before = calls.drop_last();
        lemma_last_settling(before, slot);
        assert(calls[calls.len() - 1] == calls.last());
        if calls.last().settles(slot) {
        } else if last_settling(calls, slot) is Some {
            let i = choose|i: int| 0 <= i < before.len() && (#[trigger] before[i]).settles(slot);
            assert(calls[i] == before[i]);
        } else {
            assert forall|i: int| 0 <= i < calls.len() implies !(#[trigger] calls[i]).settles(
                slot,
            ) by {
                if i < before.len() {
                    assert(calls[i] == before[i]);
                }
            }
        }
    }
}

/// Of each thing that a builder can be told, it keeps what it was told last.
pub proof fn law_last_call_counts<X, P>(log_name: &'static str, calls: Seq<BuilderCall<X, P>>)
    ensures
        TracingFieldBuilder::fresh(log_name).after_all(calls) == (TracingFieldBuilder::<X, P> {
            log_name,
            span_field: last_name(calls, BuilderSlot::SpanField),
            record_as: last_name(calls, BuilderSlot::RecordAs),
            from_str: last_extractor(calls, BuilderSlot::FromStr),
            from_u64: last_extractor(calls, BuilderSlot::FromU64),
            from_i64: last_extractor(calls, BuilderSlot::FromI64),
            from_bool: last_extractor(calls, BuilderSlot::FromBool),
            log_fmt_fn: last_formatter(calls, BuilderSlot::Log),
            span_fmt_fn: last_formatter(calls, BuilderSlot::Span),
        }),
    decreases calls.len(),
{
    if calls.len() > 0 {
        law_last_call_counts(log_name, calls.drop_last());
    }
}

/// A field takes values from span fields exactly where some step asked for it,
/// and puts values into log lines or span fields exactly where some step asked
/// for that. The name in log lines is the one that building started with.
pub proof fn law_field_does_what_was_asked<X, P>(
    log_name: &'static str,
    calls: Seq<BuilderCall<X, P>>,
)
    ensures
        ({
            let field = TracingFieldBuilder::fresh(log_name).after_all(calls).built();
            &&& field.log_name == log_name
            &&& field.extract is Some <==> exists|i: int|
                0 <= i < calls.len() && (#[trigger] calls[i]).is_extract()
            &&& (field.log_fmt_fn is Some || field.span_fmt_fn is Some) <==> exists|i: int|
                0 <= i < calls.len() && (#[trigger] calls[i]).is_enrich()
        }),
{
    law_last_call_counts(log_name, calls);
    lemma_last_settling(calls, BuilderSlot::FromStr);
    lemma_last_settling(calls, BuilderSlot::FromU64);
    lemma_last_settling(calls, BuilderSlot::FromI64);
    lemma_last_settling(calls, BuilderSlot::FromBool);
    lemma_last_settling(calls, BuilderSlot::Log);
    lemma_last_settling(calls, BuilderSlot::Span);
    let field = TracingFieldBuilder::fresh(log_name).after_all(calls).built();
    if field.extract is Some {
        let i = choose|i: int|
            0 <= i < calls.len() && ((#[trigger] calls[i]).settles(BuilderSlot::FromStr)
                || calls[i].settles(BuilderSlot::FromU64)
                || calls[i].settles(BuilderSlot::FromI64)
                || calls[i].settles(BuilderSlot::FromBool));
        assert(calls[i].is_extract());
    } else {
        assert forall|i: int| 0 <= i < calls.len() implies !(#[trigger]
        calls[i]).is_extract() by {
            assert(!calls[i].settles(BuilderSlot::FromStr));
            assert(!calls[i].settles(BuilderSlot::FromU64));
            assert(!calls[i].settles(BuilderSlot::FromI64));
            assert(!calls[i].settles(BuilderSlot::FromBool));
        }
    }
    if field.log_fmt_fn is Some || field.span_fmt_fn is Some {
        let i = choose|i: int|
            0 <= i < calls.len() && ((#[trigger] calls[i]).settles(BuilderSlot::Log)
                || calls[i].settles(BuilderSlot::Span));
        assert(calls[i].is_enrich());
    } else {
        assert forall|i: int| 0 <= i < calls.len() implies !(#[trigger]
        calls[i]).is_enrich() by {
            assert(!calls[i].settles(BuilderSlot::Log));
            assert(!calls[i].settles(BuilderSlot::Span));
        }
    }
}

/// A field that is only about taking values from span fields has no text for any
/// value.
pub proof fn law_extract_only_field_has_no_text<V, X, P: Fn(&V) -> String>(
    log_name: &'static str,
    calls: Seq<BuilderCall<X, P>>,
    value: TypedValue<V>,
    text: Option<Seq<char>>,
)
    requires
        forall|i: int| 0 <= i < calls.len() ==> !(#[trigger] calls[i]).is_enrich(),
    ensures
        ({
            let field = TracingFieldBuilder::fresh(log_name).after_all(calls).built();
            &&& formats(field.log_fmt_fn, value, text) <==> text is None
            &&& formats(field.span_fmt_fn, value, text) <==> text is None
        }),
{
    law_field_does_what_was_asked(log_name, calls);
}

/// A key with its tracing field, the names filled in.
pub struct TracingFieldEntry<X, P> {
    pub context_key: &'static str,
    /// The span field that values are taken from.
    pub span_field: &'static str,
    pub extract: Option<ExtractFns<X>>,
    /// The name in log lines.
    pub log_name: &'static str,
    pub fmt_fn: Option<Arc<Formatter<P>>>,
    /// The span field that values are recorded into.
    pub record_field: &'static str,
    pub span_fmt_fn: Option<Arc<Formatter<P>>>,
}

/// A key with its tracing field, the names filled in.
pub open spec fn entry_of<X, P>(
    key: &'static str,
    field: TracingField<X, P>,
) -> TracingFieldEntry<X, P> {
    TracingFieldEntry {
        context_key: key,
        span_field: match field.span_field {
            Some(name) => name,
            None => key,
        },
        extract: field.extract,
        log_name: field.log_name,
        fmt_fn: field.log_fmt_fn,
        record_field: match field.record_as {
            Some(name) => name,
            None => field.log_name,
        },
        span_fmt_fn: field.span_fmt_fn,
    }
}

fn resolve_entry<X, P>(key: &'static str, field: &TracingField<X, P>) -> (r: TracingFieldEntry<
    X,
    P,
>)
    ensures
        r == entry_of(key, *field),
{
    let extract = match &field.extract {
        Some(fns) => Some(
            ExtractFns {
                from_str: share_extractor(&fns.from_str),
                from_u64: share_extractor(&fns.from_u64),
                from_i64: share_extractor(&fns.from_i64),
                from_bool: share_extractor(&fns.from_bool),
            },
        ),
        None => None,
    };
    TracingFieldEntry {
        context_key: key,
        span_field: match field.span_field {
            Some(name) => name,
            None => key,
        },
        extract,
        log_name: field.log_name,
        fmt_fn: share_formatter(&field.log_fmt_fn),
        record_field: field.record_field(),
        span_fmt_fn: share_formatter(&field.span_fmt_fn),
    }
}

/// The entries of all keys that have a tracing field: one for each, in no
/// particular order.
pub open spec fn discovered<E, D, X, P>(
    registrations: Registrations<E, D, TracingField<X, P>>,
    entries: Seq<TracingFieldEntry<X, P>>,
) -> bool {
    exists|keys: Seq<&'static str>|
        {
            &&& keys.len() == entries.len()
            &&& #[trigger] crate::store::key_set(keys) == crate::registry::metadata_set(
                registrations,
            )
            &&& forall|a: int, b: int|
                #![trigger keys[a], keys[b]]
                0 <= a < b < keys.len() ==> keys[a]@ != keys[b]@
            &&& forall|a: int|
                0 <= a < keys.len() ==> #[trigger] entries[a] == entry_of(
                    keys[a],
                    registrations[keys[a]@].metadata->0,
                )
        }
}

/// Find all keys that have a tracing field.
pub fn get_tracing_fields<E, D, X, P>(
    registry: &Registry<'_, E, D, TracingField<X, P>>,
) -> (r: Vec<TracingFieldEntry<X, P>>)
    ensures
        discovered(registry@, r@),
{
    let entries = registry.keys_with_metadata(resolve_entry);
    proof {
        let keys = choose|keys: Seq<&'static str>|
            {
                &&& keys.len() == entries@.len()
                &&& #[trigger] crate::store::key_set(keys) == crate::registry::metadata_set(
                    registry@,
                )
                &&& forall|a: int, b: int|
                    #![trigger keys[a], keys[b]]
                    0 <= a < b < keys.len() ==> keys[a]@ != keys[b]@
                &&& forall|a: int|
                    0 <= a < keys.len() ==> resolve_entry.ensures(
                        (#[trigger] keys[a], &registry@[keys[a]@].metadata->0),
                        entries@[a],
                    )
            };
        assert forall|a: int| 0 <= a < keys.len() implies #[trigger] entries@[a] == entry_of(
            keys[a],
            registry@[keys[a]@].metadata->0,
        ) by {
            assert(resolve_entry.ensures(
                (keys[a], &registry@[keys[a]@].metadata->0),
                entries@[a],
            ));
        }
        assert(crate::store::key_set(keys) == crate::registry::metadata_set(registry@));
    }
    entries
}

/// The formatters of entries can be called with any value.
pub open spec fn formatters_ready<V, X, P: Fn(&V) -> String>(
    entries: Seq<TracingFieldEntry<X, P>>,
) -> bool {
    forall|i: int|
        0 <= i < entries.len() ==> formatter_ready::<V, P>((#[trigger] entries[i]).fmt_fn)
            && formatter_ready::<V, P>(entries[i].span_fmt_fn)
}

/// Whether the value of a key can have this text. A key without a value has
/// none.
pub open spec fn formats_in<V, P: Fn(&V) -> String>(
    formatter: Option<Arc<Formatter<P>>>,
    value: Option<Arc<TypedValue<V>>>,
    text: Option<Seq<char>>,
) -> bool {
    match value {
        Some(found) => formats(formatter, *found, text),
        None => text is None,
    }
}

/// The names of those entries that have a text, with the text.
pub open spec fn named_texts(names: Seq<Seq<char>>, texts: Seq<Option<Seq<char>>>) -> Seq<
    (Seq<char>, Seq<char>),
>
    decreases texts.len(),
{
    if texts.len() == 0 {
        Seq::empty()
    } else {
        let before = named_texts(names, texts.drop_last());
        match texts.last() {
            Some(text) => before.push((names[texts.len() - 1], text)),
            None => before,
        }
    }
}

/// Names with texts, as characters.
pub open spec fn pair_views(pairs: Seq<(&'static str, String)>) -> Seq<(Seq<char>, Seq<char>)> {
    Seq::new(pairs.len(), |i: int| (pairs[i].0@, pairs[i].1@))
}

/// The names of entries in log lines.
pub open spec fn log_names<X, P>(entries: Seq<TracingFieldEntry<X, P>>) -> Seq<Seq<char>> {
    Seq::new(entries.len(), |i: int| entries[i].log_name@)
}

/// The span fields that entries are recorded into.
pub open spec fn record_names<X, P>(entries: Seq<TracingFieldEntry<X, P>>) -> Seq<Seq<char>> {
    Seq::new(entries.len(), |i: int| entries[i].record_field@)
}

/// Whether these can be the log fields of a context: for each entry whose key
/// has a value with a text, its name and that text.
pub open spec fn collects_log_fields<V, X, P: Fn(&V) -> String>(
    entries: Seq<TracingFieldEntry<X, P>>,
    cell: Option<StoreView<TypedValue<V>>>,
    fields: Seq<(Seq<char>, Seq<char>)>,
) -> bool {
    exists|texts: Seq<Option<Seq<char>>>|
        {
            &&& texts.len() == entries.len()
            &&& forall|i: int|
                0 <= i < entries.len() ==> formats_in(
                    (#[trigger] entries[i]).fmt_fn,
                    crate::context::value_in(cell, entries[i].context_key@),
                    texts[i],
                )
            &&& fields == #[trigger] named_texts(log_names(entries), texts)
        }
}

/// Whether this can be what an entry records into a span: nothing into a field
/// that the user set.
pub open spec fn records<V, X, P: Fn(&V) -> String>(
    entry: TracingFieldEntry<X, P>,
    user_set: Set<Seq<char>>,
    cell: Option<StoreView<TypedValue<V>>>,
    text: Option<Seq<char>>,
) -> bool {
    if user_set.contains(entry.record_field@) {
        text is None
    } else {
        formats_in(
            entry.span_fmt_fn,
            crate::context::value_in(cell, entry.context_key@),
            text,
        )
    }
}

/// Whether these can be the values to record into a span.
pub open spec fn collects_span_fields<V, X, P: Fn(&V) -> String>(
    entries: Seq<TracingFieldEntry<X, P>>,
    user_set: Set<Seq<char>>,
    cell: Option<StoreView<TypedValue<V>>>,
    fields: Seq<(Seq<char>, Seq<char>)>,
) -> bool {
    exists|texts: Seq<Option<Seq<char>>>|
        {
            &&& texts.len() == entries.len()
            &&& forall|i: int|
                0 <= i < entries.len() ==> records(
                    #[trigger] entries[i],
                    user_set,
                    cell,
                    texts[i],
                )
            &&& fields == #[trigger] named_texts(record_names(entries), texts)
        }
}

/// The text of the value of a key.
fn format_key<V, P: Fn(&V) -> String>(
    formatter: &Option<Arc<Formatter<P>>>,
    cell: &ContextCell<V>,
    key: &str,
) -> (r: Option<String>)
    requires
        formatter_ready::<V, P>(*formatter),
    ensures
        formats_in(
            *formatter,
            crate::context::value_in(cell@, key@),
            crate::scope::name_view(r),
        ),
{
    match get_raw_value(cell, key) {
        Some(found) => format_value(formatter, &*found),
        None => None,
    }
}

/// The log fields of the context: the name and the text of each entry whose key
/// has a value.
pub fn collect_log_fields<V, X, P: Fn(&V) -> String>(
    entries: &Vec<TracingFieldEntry<X, P>>,
    cell: &ContextCell<V>,
) -> (r: Vec<(&'static str, String)>)
    requires
        formatters_ready::<V, X, P>(entries@),
    ensures
        collects_log_fields(entries@, cell@, pair_views(r@)),
{
    let mut result: Vec<(&'static str, String)> = Vec::new();
    let ghost mut texts: Seq<Option<Seq<char>>> = Seq::empty();
    let mut i: usize = 0;
    assert(pair_views(result@) =~= named_texts(log_names(entries@), texts));
    while i < entries.len()
        invariant
            formatters_ready::<V, X, P>(entries@),
            i <= entries@.len(),
            texts.len() == i,
            forall|j: int|
                0 <= j < i ==> formats_in(
                    (#[trigger] entries@[j]).fmt_fn,
                    crate::context::value_in(cell@, entries@[j].context_key@),
                    texts[j],
                ),
            pair_views(result@) == named_texts(log_names(entries@), texts),
        decreases entries@.len() - i,
    {
        let entry = &entries[i];
        let ghost before = pair_views(result@);
        let ghost texts_before = texts;
        let text = format_key(&entry.fmt_fn, cell, entry.context_key);
        proof {
            texts = texts.push(crate::scope::name_view(text));
            assert(texts.drop_last() =~= texts_before);
        }
        match text {
            Some(formatted) => {
                result.push((entry.log_name, formatted));
                assert(pair_views(result@) =~= before.push((entry.log_name@, formatted@)));
            },
            None => {},
        }
        i = i + 1;
    }
    result
}

/// The values to record into a span: the field and the text of each entry whose
/// key has a value, leaving alone the fields that the user set.
pub fn collect_span_fields<V, X, P: Fn(&V) -> String>(
    entries: &Vec<TracingFieldEntry<X, P>>,
    user_set: &KeyMap<()>,
    cell: &ContextCell<V>,
) -> (r: Vec<(&'static str, String)>)
    requires
        formatters_ready::<V, X, P>(entries@),
    ensures
        collects_span_fields(entries@, user_set@.dom(), cell@, pair_views(r@)),
{
    let mut result: Vec<(&'static str, String)> = Vec::new();
    let ghost mut texts: Seq<Option<Seq<char>>> = Seq::empty();
    let mut i: usize = 0;
    assert(pair_views(result@) =~= named_texts(record_names(entries@), texts));
    while i < entries.len()
        invariant
            formatters_ready::<V, X, P>(entries@),
            i <= entries@.len(),
            texts.len() == i,
            forall|j: int|
                0 <= j < i ==> records(
                    #[trigger] entries@[j],
                    user_set@.dom(),
                    cell@,
                    texts[j],
                ),
            pair_views(result@) == named_texts(record_names(entries@), texts),
        decreases entries@.len() - i,
    {
        let entry = &entries[i];
        let ghost before = pair_views(result@);
        let ghost texts_before = texts;
        let text = if user_set.contains_key(entry.record_field) {
            None
        } else {
            format_key(&entry.span_fmt_fn, cell, entry.context_key)
        };
        proof {
            texts = texts.push(crate::scope::name_view(text));
            assert(texts.drop_last() =~= texts_before);
        }
        match text {
            Some(formatted) => {
                result.push((entry.record_field, formatted));
                assert(pair_views(result@) =~= before.push((entry.record_field@, formatted@)));
            },
            None => {},
        }
        i = i + 1;
    }
    result
}

/// Names and texts as they stand in front of a log line.
pub open spec fn prefix_text(fields: Seq<(Seq<char>, Seq<char>)>) -> Seq<char>
    decreases fields.len(),
{
    if fields.len() == 0 {
        Seq::empty()
    } else {
        prefix_text(fields.drop_last()) + fields.last().0 + "="@ + fields.last().1 + " "@
    }
}

/// What stands in front of a log line.
pub fn write_prefix(fields: &Vec<(&'static str, String)>) -> (r: String)
    ensures
        r@ == prefix_text(pair_views(fields@)),
{
    let mut out: String = String::new();
    let ghost all = pair_views(fields@);
    let mut i: usize = 0;
    assert(all.take(0) =~= Seq::<(Seq<char>, Seq<char>)>::empty());
    assert(out@ =~= prefix_text(all.take(0)));
    while i < fields.len()
        invariant
            i <= fields@.len(),
            all == pair_views(fields@),
            out@ == prefix_text(all.take(i as int)),
        decreases fields@.len() - i,
    {
        out.append(fields[i].0);
        out.append("=");
        out.append(fields[i].1.as_str());
        out.append(" ");
        proof {
            let next = all.take(i + 1);
            assert(next.drop_last() =~= all.take(i as int));
            assert(next.last() == all[i as int]);
            assert(out@ =~= prefix_text(next));
        }
        i = i + 1;
    }
    assert(all.take(i as int) =~= all);
    out
}

/// A formatter of log lines that puts the log fields of the context in front.
pub struct WithContextFields<F> {
    pub inner: F,
}

impl<F> WithContextFields<F> {
    /// Put log fields in front of what another formatter writes.
    pub fn wrap(inner: F) -> (r: Self)
        ensures
            r.inner == inner,
    {
        WithContextFields { inner }
    }

    /// What stands in front of a log line.
    pub fn prefix<V, X, P: Fn(&V) -> String>(
        &self,
        entries: &Vec<TracingFieldEntry<X, P>>,
        cell: &ContextCell<V>,
    ) -> (r: String)
        requires
            formatters_ready::<V, X, P>(entries@),
        ensures
            exists|fields: Seq<(Seq<char>, Seq<char>)>| #[trigger]
                collects_log_fields(entries@, cell@, fields) && r@ == prefix_text(fields),
    {
        let fields = collect_log_fields(entries, cell);
        assert(collects_log_fields(entries@, cell@, pair_views(fields@)));
        write_prefix(&fields)
    }
}

/// The value of a span field that an entry looks at, and the extractor for its
/// kind: a text before numbers, and those before truth values.
pub open spec fn extraction<X>(
    fns: ExtractFns<X>,
    fields: ExtractedView,
    name: Seq<char>,
) -> Option<(Option<Arc<Extractor<X>>>, FieldView)> {
    if fields.strings.contains_key(name) {
        Some((fns.from_str, FieldView::Str(fields.strings[name])))
    } else if fields.u64s.contains_key(name) {
        Some((fns.from_u64, FieldView::U64(fields.u64s[name])))
    } else if fields.i64s.contains_key(name) {
        Some((fns.from_i64, FieldView::I64(fields.i64s[name])))
    } else if fields.bools.contains_key(name) {
        Some((fns.from_bool, FieldView::Bool(fields.bools[name])))
    } else {
        None
    }
}

/// Whether an extractor can make this of a span field.
pub open spec fn extracts_from<V, X: Fn(&FieldValue) -> Option<V>>(
    extractor: Option<Arc<Extractor<X>>>,
    field: FieldView,
    value: Option<Arc<TypedValue<V>>>,
) -> bool {
    match extractor {
        Some(made_for) => exists|given: FieldValue, answer: Option<V>| #[trigger]
            made_for.extract.ensures((&given,), answer) && given@ == field && match answer {
                Some(made) => value matches Some(kept) && *kept == (TypedValue {
                    type_id: made_for.type_id,
                    value: made,
                }),
                None => value is None,
            },
        None => value is None,
    }
}

/// Whether an entry can take this value from the fields of a span.
pub open spec fn extracts<V, X: Fn(&FieldValue) -> Option<V>, P>(
    entry: TracingFieldEntry<X, P>,
    fields: ExtractedView,
    value: Option<Arc<TypedValue<V>>>,
) -> bool {
    match entry.extract {
        Some(fns) => match extraction(fns, fields, entry.span_field@) {
            Some((extractor, field)) => extracts_from(extractor, field, value),
            None => value is None,
        },
        None => value is None,
    }
}

/// An extractor can be called with any field.
pub open spec fn extractor_ready<V, X: Fn(&FieldValue) -> Option<V>>(
    extractor: Option<Arc<Extractor<X>>>,
) -> bool {
    forall|field: FieldValue|
        extractor is Some ==> (#[trigger] (extractor->0).extract.requires((&field,)))
}

/// The extractors of entries can be called with any field.
pub open spec fn extractors_ready<V, X: Fn(&FieldValue) -> Option<V>, P>(
    entries: Seq<TracingFieldEntry<X, P>>,
) -> bool {
    forall|i: int|
        0 <= i < entries.len() ==> ((#[trigger] entries[i]).extract matches Some(fns)
            ==> extractor_ready::<V, X>(fns.from_str) && extractor_ready::<V, X>(fns.from_u64)
            && extractor_ready::<V, X>(fns.from_i64) && extractor_ready::<V, X>(fns.from_bool))
}

fn extract_with<V, X: Fn(&FieldValue) -> Option<V>>(
    extractor: &Option<Arc<Extractor<X>>>,
    field: FieldValue,
) -> (r: Option<Arc<TypedValue<V>>>)
    requires
        extractor_ready::<V, X>(*extractor),
    ensures
        extracts_from(*extractor, field@, r),
{
    match extractor {
        Some(made_for) => {
            let answer = (made_for.extract)(&field);
            let ghost given = answer;
            assert(made_for.extract.ensures((&field,), given));
            match answer {
                Some(value) => Some(Arc::new(TypedValue { type_id: made_for.type_id, value })),
                None => None,
            }
        },
        None => None,
    }
}

/// The value that an entry takes from the fields of a span.
pub fn extract_value<V, X: Fn(&FieldValue) -> Option<V>, P>(
    entry: &TracingFieldEntry<X, P>,
    fields: &ExtractedFields,
) -> (r: Option<Arc<TypedValue<V>>>)
    requires
        entry.extract matches Some(fns) ==> extractor_ready::<V, X>(fns.from_str)
            && extractor_ready::<V, X>(fns.from_u64) && extractor_ready::<V, X>(fns.from_i64)
            && extractor_ready::<V, X>(fns.from_bool),
    ensures
        extracts(*entry, fields@, r),
{
    match &entry.extract {
        Some(fns) => {
            if let Some(text) = fields.string_values.get(entry.span_field) {
                return extract_with(&fns.from_str, FieldValue::Str(text.clone()));
            }
            if let Some(number) = fields.u64_values.get(entry.span_field) {
                return extract_with(&fns.from_u64, FieldValue::U64(*number));
            }
            if let Some(number) = fields.i64_values.get(entry.span_field) {
                return extract_with(&fns.from_i64, FieldValue::I64(*number));
            }
            if let Some(flag) = fields.bool_values.get(entry.span_field) {
                return extract_with(&fns.from_bool, FieldValue::Bool(*flag));
            }
            None
        },
        None => None,
    }
}

} // verus!
