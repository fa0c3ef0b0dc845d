//! Values that go between spans, log lines and the context.

use std::any::TypeId;

use dcontext::cell::{ContextCell, TaskSlot};
use dcontext::config::Config;
use dcontext::context;
use dcontext::key_map::KeyMap;
use dcontext::registry::{Registry, RegistryBuilder, RegistryMap, RegistrationOptions};
use dcontext::scope::ScopeGuard;
use dcontext::store::ContextStore;
use dcontext::sync_ctx;
use dcontext::tracing_bridge::async_layer::AsyncDcontextLayer;
use dcontext::tracing_bridge::field_mapping::{ExtractedFields, FieldExtractor, FieldValue};
use dcontext::tracing_bridge::guard_stack::GuardStack;
use dcontext::tracing_bridge::layer;
use dcontext::tracing_bridge::log_enrichment;
use dcontext::tracing_bridge::log_enrichment::LogField;
use dcontext::tracing_bridge::span_info::{SpanInfo, SpanState, SPAN_INFO_KEY};
use dcontext::tracing_bridge::sync_layer::{
    apply_field_extraction, set_span_values, take_field_values,
};
use dcontext::tracing_bridge::tracing_field::{
    collect_log_fields, collect_span_fields, get_tracing_fields, write_prefix, TracingField,
    TracingFieldBuilder, TracingFieldEntry, WithContextFields,
};
use dcontext::tracing_bridge::DcontextLayer;
use dcontext::value::{TypeInfo, TypedValue};

#[derive(Clone, Debug, PartialEq)]
struct Counter(u64);

#[derive(Clone, Debug, PartialEq)]
struct Flag(bool);

#[derive(Clone, Debug, PartialEq)]
enum Value {
    Text(String),
    Counter(Counter),
    Flag(Flag),
    Info(String, String, String),
    Number(u64),
}

type Enc = fn(&Value) -> Result<Vec<u8>, String>;
type Dec = fn(&[u8]) -> Result<Value, String>;
type Extract = fn(&FieldValue) -> Option<Value>;
type Format = fn(&Value) -> String;
type Field = TracingField<Extract, Format>;
type Builder = TracingFieldBuilder<Extract, Format>;
type Entries = Vec<TracingFieldEntry<Extract, Format>>;

fn decode(_bytes: &[u8]) -> Result<Value, String> {
    Err("not read here".to_string())
}

fn from_str(field: &FieldValue) -> Option<Value> {
    match field {
        FieldValue::Str(text) => Some(Value::Text(text.clone())),
        _ => None,
    }
}

fn from_u64(field: &FieldValue) -> Option<Value> {
    match field {
        FieldValue::U64(n) => Some(Value::Counter(Counter(*n))),
        _ => None,
    }
}

fn from_bool(field: &FieldValue) -> Option<Value> {
    match field {
        FieldValue::Bool(b) => Some(Value::Flag(Flag(*b))),
        _ => None,
    }
}

fn display(value: &Value) -> String {
    match value {
        Value::Text(text) => text.clone(),
        other => format!("{:?}", other),
    }
}

fn debug(value: &Value) -> String {
    match value {
        Value::Text(text) => format!("{:?}", text),
        Value::Counter(counter) => format!("{:?}", counter),
        other => format!("{:?}", other),
    }
}

fn counted(value: &Value) -> String {
    match value {
        Value::Counter(counter) => format!("count={}", counter.0),
        other => format!("{:?}", other),
    }
}

fn make_info(info: SpanInfo) -> Value {
    Value::Info(info.name, info.target, info.level)
}

fn string_id() -> TypeId {
    TypeId::of::<String>()
}

fn counter_id() -> TypeId {
    TypeId::of::<Counter>()
}

fn builder(name: &'static str) -> Builder {
    Field::builder(name)
}

fn registered() -> RegistryMap<Enc, Dec, Field> {
    let string = TypeInfo { id: string_id(), name: "String" };
    let counter = TypeInfo { id: counter_id(), name: "Counter" };
    let flag = TypeInfo { id: TypeId::of::<Flag>(), name: "Flag" };
    let info = TypeInfo { id: TypeId::of::<SpanInfo>(), name: "SpanInfo" };
    type Options = RegistrationOptions<Enc, Dec, Field>;
    let mut b: RegistryBuilder<Enc, Dec, Field> = RegistryBuilder::new();
    for key in ["outer", "inner", "level", "visit", "tenant"] {
        b.register(key, string, decode as Dec);
    }
    b.register_with("request_id", string, decode as Dec, |opts: Options| {
        opts.with_metadata(
            builder("request_id")
                .extract_from_str(string_id(), from_str as Extract)
                .enrich_display(string_id(), display as Format)
                .build(),
        )
    });
    b.register_with("count", counter, decode as Dec, |opts: Options| {
        opts.with_metadata(
            builder("count")
                .extract_from_u64(counter_id(), from_u64 as Extract)
                .enrich_debug(counter_id(), debug as Format)
                .build(),
        )
    });
    b.register_with("enabled", flag, decode as Dec, |opts: Options| {
        opts.with_metadata(
            builder("enabled")
                .extract_from_bool(TypeId::of::<Flag>(), from_bool as Extract)
                .build(),
        )
    });
    b.register(SPAN_INFO_KEY, info, decode as Dec);
    b.register_with("log_rid", string, decode as Dec, |opts: Options| {
        opts.with_metadata(
            builder("rid").enrich_display(string_id(), display as Format).build(),
        )
    });
    b.register_with("log_counter", counter, decode as Dec, |opts: Options| {
        opts.with_metadata(
            builder("cnt").enrich_debug(counter_id(), debug as Format).build(),
        )
    });
    b.into_map()
}

fn recording(fields: Vec<(&str, FieldValue)>) -> Vec<(String, FieldValue)> {
    fields.into_iter().map(|(name, value)| (name.to_string(), value)).collect()
}

fn text(value: &str) -> FieldValue {
    FieldValue::Str(value.to_string())
}

fn span_named(name: &str, level: &str) -> SpanState {
    SpanState::new(SpanInfo {
        name: name.to_string(),
        target: "dcontext_tracing::tests".to_string(),
        level: level.to_string(),
    })
}

/// A thread with a layer.
struct World {
    map: RegistryMap<Enc, Dec, Field>,
    cell: ContextCell<Value>,
    task: TaskSlot<Value>,
    layer: DcontextLayer,
}

impl World {
    fn new(layer: DcontextLayer) -> Self {
        World { map: registered(), cell: ContextCell::new(), task: TaskSlot::none(), layer }
    }

    fn entries(&self) -> Entries {
        get_tracing_fields(&Registry::new(&self.map))
    }

    fn scope(&mut self) -> ScopeGuard {
        sync_ctx::enter_scope(&mut self.cell, &Registry::new(&self.map))
    }

    fn set_text(&mut self, key: &'static str, value: &str) {
        sync_ctx::set_context(&mut self.cell, key, string_id(), Value::Text(value.to_string()));
    }

    fn get(&self, key: &str, id: TypeId) -> Option<Value> {
        sync_ctx::get_context(&self.cell, key, &id).map(|held| held.value.clone())
    }

    fn get_text(&self, key: &str) -> Option<String> {
        self.get(key, string_id()).map(|value| display(&value))
    }

    fn info(&self) -> (String, String, String) {
        match self.get(SPAN_INFO_KEY, TypeId::of::<SpanInfo>()) {
            Some(Value::Info(name, target, level)) => (name, target, level),
            other => panic!("no span: {:?}", other),
        }
    }

    fn new_span(
        &self,
        name: &str,
        level: &str,
        fields: Vec<(&str, FieldValue)>,
    ) -> Option<SpanState> {
        let mut span = span_named(name, level);
        self.layer.on_new_span(&mut span, &self.entries(), &recording(fields));
        Some(span)
    }

    fn enter(&mut self, span: &mut Option<SpanState>) -> Vec<(&'static str, String)> {
        let entries = self.entries();
        self.layer.on_enter(
            span,
            &entries,
            &mut self.cell,
            &self.task,
            TypeId::of::<SpanInfo>(),
            &(make_info as fn(SpanInfo) -> Value),
        )
    }

    fn enter_new(&mut self, name: &str, fields: Vec<(&str, FieldValue)>) -> Vec<(&'static str, String)> {
        let mut span = self.new_span(name, "INFO", fields);
        self.enter(&mut span)
    }

    fn chain(&self) -> Vec<String> {
        sync_ctx::scope_chain(&self.cell, &Config::new())
    }
}

// Fields into the context

#[test]
fn field_extraction_string() {
    let mut w = World::new(DcontextLayer::new());
    let _scope = w.scope();
    w.enter_new("handler", vec![("request_id", text("abc-123"))]);
    assert_eq!(w.get_text("request_id").unwrap_or_default(), "abc-123");
}

#[test]
fn field_extraction_u64() {
    let mut w = World::new(DcontextLayer::new());
    let _scope = w.scope();
    w.enter_new("handler", vec![("count", FieldValue::U64(42))]);
    assert_eq!(w.get("count", counter_id()), Some(Value::Counter(Counter(42))));
}

#[test]
fn field_extraction_bool() {
    let mut w = World::new(DcontextLayer::new());
    let _scope = w.scope();
    w.enter_new("handler", vec![("enabled", FieldValue::Bool(true))]);
    assert_eq!(w.get("enabled", TypeId::of::<Flag>()), Some(Value::Flag(Flag(true))));
}

#[test]
fn field_extraction_missing_field() {
    let mut w = World::new(DcontextLayer::new());
    let _scope = w.scope();
    w.enter_new("handler", vec![("other_field", text("value"))]);
    assert_eq!(w.get_text("request_id").unwrap_or_default(), String::default());
}

#[test]
fn field_extraction_late_record() {
    let mut w = World::new(DcontextLayer::new());
    let _scope = w.scope();
    let mut span = w.new_span("handler", "INFO", vec![]);
    let entries = w.entries();
    w.layer.on_record(
        false,
        span.as_mut().unwrap(),
        &entries,
        &recording(vec![("request_id", text("late-value"))]),
    );
    w.enter(&mut span);
    assert_eq!(w.get_text("request_id").unwrap_or_default(), "late-value");
}

#[test]
fn multiple_field_extractions() {
    let mut w = World::new(DcontextLayer::new());
    let _scope = w.scope();
    w.enter_new("handler", vec![("request_id", text("abc")), ("count", FieldValue::U64(10))]);
    assert_eq!(w.get_text("request_id").unwrap_or_default(), "abc");
    assert_eq!(w.get("count", counter_id()), Some(Value::Counter(Counter(10))));
}

// Spans as values

#[test]
fn span_info_basic() {
    let mut w = World::new(DcontextLayer::builder().include_span_info().build());
    let _scope = w.scope();
    w.enter_new("my_operation", vec![]);
    let (name, target, level) = w.info();
    assert_eq!(name, "my_operation");
    assert!(target.contains("tests"), "target should contain module name, got: {}", target);
    assert_eq!(level, "INFO");
}

#[test]
fn span_info_different_levels() {
    let mut w = World::new(DcontextLayer::builder().include_span_info().build());
    let _scope = w.scope();
    let mut span = w.new_span("debug_op", "DEBUG", vec![]);
    w.enter(&mut span);
    assert_eq!(w.info().2, "DEBUG");
    let mut span = w.new_span("warn_op", "WARN", vec![]);
    w.enter(&mut span);
    assert_eq!(w.info().2, "WARN");
}

#[test]
fn all_features_combined() {
    let mut w = World::new(DcontextLayer::builder().include_span_info().build());
    let _scope = w.scope();
    w.set_text("tenant", "acme");
    w.enter_new("process", vec![("request_id", text("req-001"))]);
    assert_eq!(w.get_text("request_id").unwrap_or_default(), "req-001");
    assert_eq!(w.info().0, "process");
    assert_eq!(w.get_text("tenant").unwrap_or_default(), "acme");
}

#[test]
fn async_with_instrument() {
    let mut w = World::new(DcontextLayer::new());
    w.enter_new("async_handler", vec![("request_id", text("async-001"))]);
    assert_eq!(w.get_text("request_id").unwrap_or_default(), "async-001");
}

#[test]
fn async_nested_instrument() {
    let mut w = World::new(DcontextLayer::builder().include_span_info().build());
    w.enter_new("outer_span", vec![]);
    assert_eq!(w.info().0, "outer_span");
    w.enter_new("inner_span", vec![]);
    assert_eq!(w.info().0, "inner_span");
}

// Values into log lines

#[test]
fn collect_log_fields_returns_set_values() {
    let mut w = World::new(DcontextLayer::new());
    let _g = w.scope();
    w.set_text("log_rid", "req-123");
    sync_ctx::set_context(
        &mut w.cell,
        "log_counter",
        counter_id(),
        Value::Counter(Counter(42)),
    );
    let fields = collect_log_fields(&w.entries(), &w.cell);
    let find = |name: &str| fields.iter().find(|(k, _)| *k == name).map(|(_, v)| v.as_str());
    assert_eq!(find("rid"), Some("req-123"));
    assert_eq!(find("cnt"), Some("Counter(42)"));
}

#[test]
fn collect_log_fields_skips_unset_values() {
    let mut w = World::new(DcontextLayer::new());
    let _g = w.scope();
    let fields = collect_log_fields(&w.entries(), &w.cell);
    let names: Vec<&str> = fields.iter().map(|(k, _)| *k).collect();
    assert!(!names.contains(&"rid"));
    assert!(!names.contains(&"cnt"));
}

fn string_value(value: &str) -> TypedValue<Value> {
    TypedValue::new(string_id(), Value::Text(value.to_string()))
}

#[test]
fn tracing_field_display_formatting() {
    let tf = builder("test").enrich_display(string_id(), display as Format).build();
    assert_eq!(tf.format(&string_value("hello")), Some("hello".to_string()));
}

#[test]
fn tracing_field_debug_formatting() {
    let tf = builder("test").enrich_debug(counter_id(), debug as Format).build();
    let val = TypedValue::new(counter_id(), Value::Counter(Counter(7)));
    assert_eq!(tf.format(&val), Some("Counter(7)".to_string()));
}

#[test]
fn tracing_field_custom_formatting() {
    let tf = builder("cnt").enrich_custom(counter_id(), counted as Format).build();
    let val = TypedValue::new(counter_id(), Value::Counter(Counter(99)));
    assert_eq!(tf.format(&val), Some("count=99".to_string()));
}

#[test]
fn tracing_field_wrong_type_returns_none() {
    let tf = builder("test").enrich_display(string_id(), display as Format).build();
    let val = TypedValue::new(TypeId::of::<u64>(), Value::Number(42));
    assert_eq!(tf.format(&val), None);
}

#[test]
fn tracing_field_no_enrich_returns_none() {
    let tf = builder("test").extract_from_str(string_id(), from_str as Extract).build();
    assert_eq!(tf.format(&string_value("hello")), None);
}

#[test]
fn with_context_fields_enriches_output() {
    let mut w = World::new(DcontextLayer::new());
    let _scope = w.scope();
    w.set_text("log_rid", "req-abc");
    let format = WithContextFields::wrap("test event");
    let output = format!("{}{}", format.prefix(&w.entries(), &w.cell), "test event");
    assert!(output.contains("rid=req-abc"), "expected rid=req-abc in output: {}", output);
    assert!(output.contains("test event"), "expected 'test event' in output: {}", output);
}

// Values into span fields

#[test]
fn span_record_auto_fills_empty_fields() {
    let mut w = World::new(DcontextLayer::new());
    let _scope = w.scope();
    w.set_text("request_id", "req-auto-recorded");
    let recorded = w.enter_new("handler", vec![]);
    assert!(recorded.contains(&("request_id", "req-auto-recorded".to_string())));
}

#[test]
fn values_to_record_do_not_depend_on_what_the_span_has() {
    let mut w = World::new(DcontextLayer::new());
    let _scope = w.scope();
    w.set_text("request_id", "req-any");
    let recorded = w.enter_new("simple_op", vec![]);
    assert_eq!(recorded, vec![("request_id", "req-any".to_string())]);
}

#[test]
fn last_step_of_building_counts() {
    let tf = builder("log")
        .span_field("first")
        .enrich_display(string_id(), display as Format)
        .span_field("second")
        .enrich_log_display(string_id(), debug as Format)
        .build();
    assert_eq!(tf.log_name(), "log");
    assert_eq!(tf.span_field(), Some("second"));
    assert!(!tf.has_extract());
    assert_eq!(tf.format(&string_value("x")), Some("\"x\"".to_string()));
    assert_eq!(tf.format_for_span(&string_value("x")), Some("x".to_string()));
}

#[test]
fn values_are_taken_first_and_set_later() {
    let mut w = World::new(DcontextLayer::new());
    let entries = w.entries();
    let span = w.new_span("handler", "INFO", vec![("request_id", text("r-1"))]).unwrap();
    let values = take_field_values(&entries, &span.fields);
    assert_eq!(values.len(), entries.len());
    assert_eq!(w.get_text("request_id"), None);
    set_span_values(
        true,
        &span.info,
        &entries,
        values,
        &mut w.cell,
        TypeId::of::<SpanInfo>(),
        &(make_info as fn(SpanInfo) -> Value),
    );
    assert_eq!(w.get_text("request_id"), Some("r-1".to_string()));
    assert_eq!(w.info().0, "handler");

    let mut other = World::new(DcontextLayer::new());
    apply_field_extraction(&entries, &span.fields, &mut other.cell);
    assert_eq!(other.get_text("request_id"), Some("r-1".to_string()));
    assert!(take_field_values::<Value, Extract, Format>(&entries, &None).is_empty());
}

#[test]
fn enrich_display_shorthand_enables_both_log_and_span() {
    let tf = builder("test").enrich_display(string_id(), display as Format).build();
    assert!(tf.has_log_enrich());
    assert!(tf.has_span_record());
    assert!(tf.has_enrich());
}

#[test]
fn enrich_log_only_does_not_enable_span() {
    let tf = builder("test").enrich_log_display(string_id(), display as Format).build();
    assert!(tf.has_log_enrich());
    assert!(!tf.has_span_record());
    assert!(tf.has_enrich());
}

#[test]
fn enrich_span_only_does_not_enable_log() {
    let tf = builder("test").enrich_span_display(string_id(), display as Format).build();
    assert!(!tf.has_log_enrich());
    assert!(tf.has_span_record());
    assert!(tf.has_enrich());
    let val = string_value("hello");
    assert_eq!(tf.format(&val), None);
    assert_eq!(tf.format_for_span(&val), Some("hello".to_string()));
}

#[test]
fn record_as_overrides_field_name() {
    let tf = builder("log_name")
        .record_as("span_field_name")
        .enrich_span_display(string_id(), display as Format)
        .build();
    assert_eq!(tf.log_name(), "log_name");
    assert_eq!(tf.record_field(), "span_field_name");
}

#[test]
fn record_field_defaults_to_log_name() {
    let tf = builder("my_field").enrich_span_display(string_id(), display as Format).build();
    assert_eq!(tf.record_field(), "my_field");
}

#[test]
fn span_record_does_not_overwrite_user_set_fields() {
    let mut w = World::new(DcontextLayer::new());
    let _scope = w.scope();
    w.set_text("request_id", "from-context");
    let recorded = w.enter_new("user_op", vec![("request_id", text("explicit-value"))]);
    assert!(!recorded.iter().any(|(name, _)| *name == "request_id"));
    assert!(!recorded.iter().any(|(_, value)| value.contains("from-context")));
}

#[test]
fn self_recording_does_not_poison_extraction() {
    let mut w = World::new(DcontextLayer::new());
    let _scope = w.scope();
    w.set_text("request_id", "original");
    let mut span = w.new_span("poison_op", "INFO", vec![]);
    let recorded = w.enter(&mut span);
    let entries = w.entries();
    let late = recorded.into_iter().map(|(name, value)| (name, text(&value))).collect();
    w.layer.on_record(true, span.as_mut().unwrap(), &entries, &recording(late));
    assert!(span.as_ref().unwrap().fields.is_none());
    assert_eq!(w.get_text("request_id"), Some("original".to_string()));
}

// No scopes for spans

#[test]
fn layer_does_not_create_scopes() {
    let mut w = World::new(DcontextLayer::new());
    let _scope = w.scope();
    let depth_before = sync_ctx::current_depth(&w.cell);
    let mut span = w.new_span("handler", "INFO", vec![]);
    w.enter(&mut span);
    assert_eq!(depth_before, sync_ctx::current_depth(&w.cell), "layer should not push scopes");
    w.layer.on_exit(&mut w.cell);
    w.layer.on_close(span.as_mut().unwrap());
    assert_eq!(depth_before, sync_ctx::current_depth(&w.cell), "layer should not pop scopes");
}

#[test]
fn scope_chain_not_affected_by_spans() {
    let mut w = World::new(DcontextLayer::new());
    let _scope = sync_ctx::push_scope(&mut w.cell, &Registry::new(&w.map), "app");
    w.enter_new("handler", vec![]);
    assert_eq!(w.chain(), vec!["app"], "span names should not appear in scope chain");
}

#[test]
fn sync_layer_does_not_create_scopes() {
    let mut w = World::new(DcontextLayer::new());
    let mut span = w.new_span("sync_handler", "INFO", vec![]);
    w.enter(&mut span);
    assert!(w.chain().is_empty(), "layer should not push scopes: {:?}", w.chain());
    w.layer.on_exit(&mut w.cell);
    assert!(w.chain().is_empty(), "Leaked: {:?}", w.chain());
}

// The layer that enters a scope for each span

#[test]
fn scoping_layer_enters_and_leaves() {
    let map = registered();
    let registry = Registry::new(&map);
    let entries = get_tracing_fields(&registry);
    let mut cell: ContextCell<Value> = ContextCell::new();
    let mut guards = GuardStack::new();
    let scoping = layer::DcontextLayer::builder().include_span_info().build();
    let mut span = span_named("handler", "INFO");
    scoping.on_new_span(&mut span, &entries, &recording(vec![("request_id", text("in-span"))]));
    let mut span = Some(span);

    scoping.on_enter(
        7,
        &span,
        &entries,
        &mut cell,
        &registry,
        &mut guards,
        TypeId::of::<SpanInfo>(),
        &(make_info as fn(SpanInfo) -> Value),
    );
    assert_eq!(sync_ctx::scope_chain(&cell, &Config::new()), vec!["handler"]);
    assert_eq!(guards.len(), 1);
    assert_eq!(
        sync_ctx::get_context(&cell, "request_id", &string_id()).map(|held| display(&held.value)),
        Some("in-span".to_string())
    );

    scoping.on_exit(7, &mut cell, &mut guards);
    assert!(sync_ctx::scope_chain(&cell, &Config::new()).is_empty());
    assert!(sync_ctx::get_context(&cell, "request_id", &string_id()).is_none());
    assert_eq!(guards.len(), 0);
    scoping.on_close(7, &mut span, &mut cell, &mut guards);
    assert_eq!(sync_ctx::current_depth(&cell), Some(1));
}

#[test]
fn task_layer_keeps_one_scope_over_many_polls() {
    let map = registered();
    let registry = Registry::new(&map);
    let tasks = AsyncDcontextLayer::new();
    let mut slot: TaskSlot<Value> = TaskSlot::with_store(ContextStore::new());
    let mut span = span_named("request", "INFO");
    for _ in 0..3 {
        tasks.on_enter(&mut span, &mut slot, &registry);
        assert_eq!(
            dcontext::async_ctx::scope_chain(&slot, &Config::new()),
            vec!["request".to_string()]
        );
        tasks.on_exit(&mut slot);
    }
    tasks.on_close(&mut span, &mut slot);
    assert!(dcontext::async_ctx::scope_chain(&slot, &Config::new()).is_empty());
}

#[test]
fn layer_leaves_spans_of_tasks_alone() {
    let mut w = World::new(DcontextLayer::builder().async_aware().build());
    w.task = TaskSlot::with_store(ContextStore::new());
    let recorded = w.enter_new("handler", vec![("request_id", text("ignored"))]);
    assert!(recorded.is_empty());
    assert_eq!(w.get_text("request_id"), None);
}

// Guards by span

fn three_scopes() -> (ContextCell<Value>, RegistryMap<Enc, Dec, Field>) {
    let map = registered();
    let mut cell = ContextCell::new();
    let _ = sync_ctx::enter_scope(&mut cell, &Registry::new(&map));
    (cell, map)
}

#[test]
fn push_pop_single() {
    let (mut cell, map) = three_scopes();
    let mut guards = GuardStack::new();
    let guard = sync_ctx::enter_scope(&mut cell, &Registry::new(&map));
    guards.push_guard(1, guard);
    assert_eq!(guards.len(), 1);
    let popped = guards.pop_guard(1);
    assert_eq!(popped.map(|g| g.expected_depth()), Some(3));
    assert_eq!(guards.len(), 0);
}

#[test]
fn push_pop_nested() {
    let (mut cell, map) = three_scopes();
    let mut guards = GuardStack::new();
    guards.push_guard(1, sync_ctx::enter_scope(&mut cell, &Registry::new(&map)));
    guards.push_guard(2, sync_ctx::enter_scope(&mut cell, &Registry::new(&map)));
    assert_eq!(guards.len(), 2);
    assert_eq!(guards.pop_guard(2).map(|g| g.expected_depth()), Some(4));
    assert_eq!(guards.len(), 1);
    assert_eq!(guards.pop_guard(1).map(|g| g.expected_depth()), Some(3));
    assert_eq!(guards.len(), 0);
}

#[test]
fn pop_nonexistent_is_noop() {
    let mut guards = GuardStack::new();
    assert!(guards.pop_guard(99).is_none());
    guards.push_guard(1, ScopeGuard::noop());
    assert!(guards.pop_guard(99).is_none());
    assert_eq!(guards.len(), 1);
}

// Smaller parts

#[test]
fn prefix_has_one_pair_per_field() {
    let fields = vec![("rid", "req-1".to_string()), ("cnt", "7".to_string())];
    assert_eq!(write_prefix(&fields), "rid=req-1 cnt=7 ");
    assert_eq!(write_prefix(&Vec::new()), "");
}

#[test]
fn user_set_fields_are_left_out() {
    let mut w = World::new(DcontextLayer::new());
    w.set_text("request_id", "r");
    w.set_text("log_rid", "l");
    let mut user_set: KeyMap<()> = KeyMap::new();
    user_set.insert("request_id", ());
    let fields = collect_span_fields(&w.entries(), &user_set, &w.cell);
    assert_eq!(fields, vec![("rid", "l".to_string())]);
}

#[test]
fn extractor_keeps_targets_only() {
    let targets = vec!["a", "b"];
    let mut extractor = FieldExtractor::new(&targets);
    extractor.record_str("a", "text");
    extractor.record_i64("b", -3);
    extractor.record_u64("c", 4);
    assert_eq!(extractor.is_target("c"), None);
    assert!(extractor.extracted.holds("a"));
    assert!(extractor.extracted.holds("b"));
    assert!(!extractor.extracted.holds("c"));
    assert!(ExtractedFields::new().is_empty());
}

#[test]
fn log_fields_are_found_in_the_registry() {
    type LogOptions = RegistrationOptions<Enc, Dec, LogField<Format>>;
    let string = TypeInfo { id: string_id(), name: "String" };
    let mut b: RegistryBuilder<Enc, Dec, LogField<Format>> = RegistryBuilder::new();
    b.register_with("rid", string, decode as Dec, |opts: LogOptions| {
        opts.with_metadata(LogField::display("request", string_id(), display as Format))
    });
    let map = b.into_map();
    let registry = Registry::new(&map);
    let mut cell: ContextCell<Value> = ContextCell::new();
    let fields = log_enrichment::WithContextFields::wrap("inner", &registry);
    assert_eq!(fields.prefix(&cell), "");
    context::set_context_variable(&mut cell, "rid", string_id(), Value::Text("r-9".to_string()));
    assert_eq!(fields.prefix(&cell), "request=r-9 ");
    let entries = log_enrichment::discover_log_fields(&registry);
    assert_eq!(
        log_enrichment::collect_log_fields(&entries, &cell),
        vec![("request", "r-9".to_string())]
    );
}
