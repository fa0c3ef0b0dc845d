//! What is known of a span.

use vstd::prelude::*;

use crate::tracing_bridge::field_mapping::{ExtractedFields, ExtractedView};

verus! {

/// The key that [`SpanInfo`] values are kept under.
pub const SPAN_INFO_KEY: &'static str = "dcontext.span";

/// Name, target and level of a span.
#[derive(Clone, Debug)]
pub struct SpanInfo {
    /// The name of the span.
    pub name: String,
    /// The target of the span, mostly a module path.
    pub target: String,
    /// The level of the span: "TRACE", "DEBUG", "INFO", "WARN" or "ERROR".
    pub level: String,
}

/// Name, target and level of a span, as characters.
#[verifier::ext_equal]
pub struct SpanInfoView {
    pub name: Seq<char>,
    pub target: Seq<char>,
    pub level: Seq<char>,
}

impl View for SpanInfo {
    type V = SpanInfoView;

    open spec fn view(&self) -> SpanInfoView {
        SpanInfoView { name: self.name@, target: self.target@, level: self.level@ }
    }
}

impl SpanInfo {
    /// A second copy.
    pub fn copy(&self) -> (r: Self)
        ensures
            r@ == self@,
    {
        SpanInfo {
            name: self.name.clone(),
            target: self.target.clone(),
            level: self.level.clone(),
        }
    }
}

impl Default for SpanInfo {
    fn default() -> (r: Self)
        ensures
            r@ == (SpanInfoView {
                name: Seq::empty(),
                target: Seq::empty(),
                level: Seq::empty(),
            }),
    {
        let r = SpanInfo { name: String::new(), target: String::new(), level: String::new() };
        assert(r@ =~= SpanInfoView {
            name: Seq::empty(),
            target: Seq::empty(),
            level: Seq::empty(),
        });
        r
    }
}

/// What the layers keep with a span.
pub struct SpanState {
    pub info: SpanInfo,
    /// The field values that were asked for.
    pub fields: Option<ExtractedFields>,
    /// Whether the layer for threads leaves this span to the layer for tasks,
    /// once that was decided.
    pub skip: Option<bool>,
    /// The depth of the scope that was entered for this span in its task.
    pub async_depth: Option<usize>,
}

/// What the layers keep with a span, texts as characters.
#[verifier::ext_equal]
pub struct SpanView {
    pub info: SpanInfoView,
    pub fields: Option<ExtractedView>,
    pub skip: Option<bool>,
    pub async_depth: Option<usize>,
}

/// The values behind optional field values.
pub open spec fn fields_view(fields: Option<ExtractedFields>) -> Option<ExtractedView> {
    match fields {
        Some(held) => Some(held@),
        None => None,
    }
}

impl View for SpanState {
    type V = SpanView;

    open spec fn view(&self) -> SpanView {
        SpanView {
            info: self.info@,
            fields: fields_view(self.fields),
            skip: self.skip,
            async_depth: self.async_depth,
        }
    }
}

impl SpanState {
    /// A span of which nothing is kept yet.
    pub fn new(info: SpanInfo) -> (r: Self)
        ensures
            r@ == (SpanView { info: info@, fields: None, skip: None, async_depth: None }),
    {
        SpanState { info, fields: None, skip: None, async_depth: None }
    }
}

} // verus!
