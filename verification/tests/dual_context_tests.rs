//! The context of a task and the context of a thread side by side.

use std::any::TypeId;

use dcontext::async_ctx;
use dcontext::cell::{ContextCell, TaskSlot};
use dcontext::config::Config;
use dcontext::inheritance::snapshot_to_store;
use dcontext::registry::Registry;
use dcontext::snapshot::ContextSnapshot;
use dcontext::sync_ctx;
use dcontext::tracing_bridge::async_layer::AsyncDcontextLayer;
use dcontext::tracing_bridge::span_info::{SpanInfo, SpanState};

#[derive(Clone, Debug, PartialEq)]
enum Value {
    Text(String),
    Number(u64),
}

fn text(value: &str) -> Value {
    Value::Text(value.to_string())
}

fn empty() -> Registry<'static, (), (), ()> {
    Registry::empty()
}

fn id() -> TypeId {
    TypeId::of::<String>()
}

fn config() -> Config {
    Config::new()
}

/// A task that starts from a snapshot.
fn task(snapshot: ContextSnapshot<Value>) -> TaskSlot<Value> {
    TaskSlot::with_store(snapshot_to_store(snapshot))
}

fn string(value: &Value) -> String {
    match value {
        Value::Text(text) => text.clone(),
        other => panic!("not a text: {:?}", other),
    }
}

fn in_task(slot: &TaskSlot<Value>, key: &str) -> Option<String> {
    async_ctx::get_context(slot, key, &id()).map(|held| string(&held.value))
}

fn in_thread(cell: &ContextCell<Value>, key: &str) -> Option<String> {
    sync_ctx::get_context(cell, key, &id()).map(|held| string(&held.value))
}

#[test]
fn async_ctx_push_pop_scope() {
    let mut slot = task(ContextSnapshot::empty());
    assert!(async_ctx::scope_chain(&slot, &config()).is_empty());
    let guard = async_ctx::push_scope(&mut slot, &empty(), "test_scope");
    assert_eq!(async_ctx::scope_chain(&slot, &config()), vec!["test_scope"]);
    async_ctx::pop_scope(&mut slot, guard.expected_depth());
    assert!(async_ctx::scope_chain(&slot, &config()).is_empty());
}

#[test]
fn async_ctx_scope_function() {
    let mut slot = task(ContextSnapshot::empty());
    let outer = async_ctx::push_scope(&mut slot, &empty(), "outer");
    assert_eq!(async_ctx::scope_chain(&slot, &config()), vec!["outer"]);
    let inner = async_ctx::push_scope(&mut slot, &empty(), "inner");
    assert_eq!(async_ctx::scope_chain(&slot, &config()), vec!["outer", "inner"]);
    async_ctx::pop_scope(&mut slot, inner.expected_depth());
    assert_eq!(async_ctx::scope_chain(&slot, &config()), vec!["outer"]);
    async_ctx::pop_scope(&mut slot, outer.expected_depth());
    assert!(async_ctx::scope_chain(&slot, &config()).is_empty());
}

#[test]
fn async_ctx_set_get_context() {
    let mut slot = task(ContextSnapshot::empty());
    async_ctx::set_context(&mut slot, "test_key", id(), text("hello"));
    assert_eq!(in_task(&slot, "test_key"), Some("hello".to_string()));
}

#[test]
fn async_ctx_snapshot_and_propagate() {
    let mut slot = task(ContextSnapshot::empty());
    async_ctx::set_context(&mut slot, "parent_key", TypeId::of::<u64>(), Value::Number(42));
    let _guard = async_ctx::push_scope(&mut slot, &empty(), "parent_scope");
    let child_snap = async_ctx::snapshot(&slot, &config());

    let child = task(child_snap);
    let val = async_ctx::get_context(&child, "parent_key", &TypeId::of::<u64>());
    assert_eq!(val.map(|held| held.value.clone()), Some(Value::Number(42)));
    assert_eq!(async_ctx::scope_chain(&child, &config()), vec!["parent_scope"]);
}

#[test]
fn sync_ctx_push_pop_scope() {
    let mut cell: ContextCell<Value> = ContextCell::new();
    sync_ctx::clear(&mut cell);
    let guard = sync_ctx::push_scope(&mut cell, &empty(), "sync_scope");
    assert_eq!(sync_ctx::scope_chain(&cell, &config()), vec!["sync_scope"]);
    sync_ctx::pop_scope(&mut cell, guard.expected_depth());
    assert!(sync_ctx::scope_chain(&cell, &config()).is_empty());
}

#[test]
fn sync_ctx_set_get_context() {
    let mut cell: ContextCell<Value> = ContextCell::new();
    sync_ctx::clear(&mut cell);
    sync_ctx::set_context(&mut cell, "sync_key", id(), text("world"));
    assert_eq!(in_thread(&cell, "sync_key"), Some("world".to_string()));
    sync_ctx::clear(&mut cell);
    assert_eq!(in_thread(&cell, "sync_key"), None);
}

#[test]
fn sync_ctx_restore_from_snapshot() {
    let mut cell: ContextCell<Value> = ContextCell::new();
    sync_ctx::clear(&mut cell);
    let mut slot = task(ContextSnapshot::empty());
    let _guard = async_ctx::push_scope(&mut slot, &empty(), "remote_scope");
    let snap = async_ctx::snapshot(&slot, &config());
    sync_ctx::restore(&mut cell, snap);
    assert_eq!(sync_ctx::scope_chain(&cell, &config()), vec!["remote_scope"]);
    sync_ctx::clear(&mut cell);
}

#[test]
fn async_and_sync_stores_are_independent() {
    let mut cell: ContextCell<Value> = ContextCell::new();
    let mut slot = task(ContextSnapshot::empty());
    async_ctx::set_context(&mut slot, "shared_name", id(), text("async_value"));
    let _guard = async_ctx::push_scope(&mut slot, &empty(), "async_scope");
    sync_ctx::set_context(&mut cell, "shared_name", id(), text("sync_value"));
    let _sync_guard = sync_ctx::push_scope(&mut cell, &empty(), "sync_scope");

    assert_eq!(in_task(&slot, "shared_name"), Some("async_value".to_string()));
    assert_eq!(in_thread(&cell, "shared_name"), Some("sync_value".to_string()));
    assert_eq!(async_ctx::scope_chain(&slot, &config()), vec!["async_scope"]);
    assert_eq!(sync_ctx::scope_chain(&cell, &config()), vec!["sync_scope"]);
}

fn span(name: &str) -> SpanState {
    SpanState::new(SpanInfo {
        name: name.to_string(),
        target: "dual_context_tests".to_string(),
        level: "INFO".to_string(),
    })
}

#[test]
fn scope_chain_does_not_leak_on_yield() {
    let layer = AsyncDcontextLayer::new();
    let mut slot = task(ContextSnapshot::empty());
    let mut handler = span("handler");

    layer.on_enter(&mut handler, &mut slot, &empty());
    let inner = async_ctx::push_scope(&mut slot, &empty(), "inner");
    // The task yields: the span is left and entered again.
    layer.on_exit(&mut slot);
    layer.on_enter(&mut handler, &mut slot, &empty());
    async_ctx::pop_scope(&mut slot, inner.expected_depth());
    layer.on_exit(&mut slot);
    layer.on_close(&mut handler, &mut slot);

    let chain = async_ctx::scope_chain(&slot, &config());
    assert!(chain.is_empty(), "Leaked scopes: {:?}", chain);
}

#[test]
fn repeated_yields_do_not_grow_scope_chain() {
    let layer = AsyncDcontextLayer::new();
    let mut slot = task(ContextSnapshot::empty());
    let mut handler = span("request_handler");

    layer.on_enter(&mut handler, &mut slot, &empty());
    for _ in 0..100 {
        let item = async_ctx::push_scope(&mut slot, &empty(), "process_item");
        layer.on_exit(&mut slot);
        layer.on_enter(&mut handler, &mut slot, &empty());
        async_ctx::pop_scope(&mut slot, item.expected_depth());
    }
    layer.on_exit(&mut slot);
    layer.on_close(&mut handler, &mut slot);

    let chain = async_ctx::scope_chain(&slot, &config());
    assert!(
        chain.is_empty(),
        "Scope chain leaked after 100 iterations: {:?} (len={})",
        chain,
        chain.len()
    );
}

#[test]
fn bridge_async_to_sync_via_spawn_blocking() {
    let mut slot = task(ContextSnapshot::empty());
    async_ctx::set_context(&mut slot, "request_id", id(), text("req-abc"));
    let _guard = async_ctx::push_scope(&mut slot, &empty(), "handler");
    let async_snap = async_ctx::snapshot(&slot, &config());

    let mut worker: ContextCell<Value> = ContextCell::new();
    sync_ctx::restore(&mut worker, async_snap);
    assert_eq!(in_thread(&worker, "request_id"), Some("req-abc".to_string()));
    assert_eq!(sync_ctx::scope_chain(&worker, &config()), vec!["handler"]);
}

#[test]
fn async_ctx_outside_task_returns_empty() {
    let slot: TaskSlot<Value> = TaskSlot::none();
    let chain = async_ctx::scope_chain(&slot, &config());
    assert!(chain.is_empty());
    assert_eq!(in_task(&slot, "any_key"), None);
    let snap = async_ctx::snapshot(&slot, &config());
    assert!(snap.scope_chain().is_empty());
}
