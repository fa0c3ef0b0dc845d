//! Registration, scopes, snapshots, serialization and migration, end to end.

use std::any::TypeId;
use std::cell::RefCell;
use std::rc::Rc;
use std::sync::Arc;

use base64::Engine;
use dcontext::attach::AttachGuard;
use dcontext::cell::ContextCell;
use dcontext::config::{max_context_size, set_max_context_size, Config};
use dcontext::context;
use dcontext::context_key::ContextKey;
use dcontext::error::ContextError;
use dcontext::future_ext::{ContextFutureExt, WithContext};
use dcontext::key_map::KeyMap;
use dcontext::registry::{
    decode_migrated, try_register, try_register_migration, try_register_with, GlobalRegistry,
    RegistrationOptions, Registry, RegistryBuilder,
};
use dcontext::scope::ScopeGuard;
use dcontext::snapshot::{
    capture_with_registry, deserialize_to_snapshot, store_from_snapshot_with_registry,
    ContextSnapshot,
};
use dcontext::store::ContextStore;
use dcontext::value::{ContextValue, TypeInfo, TypedValue};
use dcontext::wire::{make_wire_bytes, make_wire_bytes_v, serialize_from};

// Stand for the types that keys are registered with.
struct RequestId;
struct UserId;
struct TraceV2;
struct Counter;
struct Text;
struct DropLogged;

#[derive(Clone, Debug)]
struct Probe {
    text: String,
    dropped: Rc<RefCell<Vec<String>>>,
}

impl Drop for Probe {
    fn drop(&mut self) {
        self.dropped.borrow_mut().push(self.text.clone());
    }
}

#[derive(Clone, Debug)]
enum Value {
    Rid(String),
    Uid(u64),
    Trace { trace_id: String, span_id: String },
    Counter(u64),
    Text(String),
    Probe(Probe),
}

impl ContextValue for Value {
    fn serialize_value(&self) -> Result<Vec<u8>, ContextError> {
        let bytes = match self {
            Value::Rid(text) | Value::Text(text) => bincode::serialize(text),
            Value::Uid(n) | Value::Counter(n) => bincode::serialize(n),
            Value::Trace { trace_id, span_id } => bincode::serialize(&(trace_id, span_id)),
            Value::Probe(probe) => bincode::serialize(&probe.text),
        };
        bytes.map_err(|e| ContextError::SerializationFailed(e.to_string()))
    }
}

type Enc = fn(&Value) -> Result<Vec<u8>, String>;
type Dec = fn(&[u8]) -> Result<Value, String>;
type Options = RegistrationOptions<Enc, Dec, ()>;

fn decode_rid(bytes: &[u8]) -> Result<Value, String> {
    bincode::deserialize::<String>(bytes).map(Value::Rid).map_err(|e| e.to_string())
}

fn decode_uid(bytes: &[u8]) -> Result<Value, String> {
    bincode::deserialize::<u64>(bytes).map(Value::Uid).map_err(|e| e.to_string())
}

fn decode_counter(bytes: &[u8]) -> Result<Value, String> {
    bincode::deserialize::<u64>(bytes).map(Value::Counter).map_err(|e| e.to_string())
}

fn decode_text(bytes: &[u8]) -> Result<Value, String> {
    bincode::deserialize::<String>(bytes).map(Value::Text).map_err(|e| e.to_string())
}

fn decode_trace(bytes: &[u8]) -> Result<Value, String> {
    bincode::deserialize::<(String, String)>(bytes)
        .map(|(trace_id, span_id)| Value::Trace { trace_id, span_id })
        .map_err(|e| e.to_string())
}

fn decode_trace_v1(bytes: &[u8]) -> Result<String, String> {
    bincode::deserialize::<String>(bytes).map_err(|e| e.to_string())
}

fn to_migrated(trace_id: String) -> Value {
    Value::Trace { trace_id, span_id: "migrated".into() }
}

fn to_default_span(trace_id: String) -> Value {
    Value::Trace { trace_id, span_id: "default-span".into() }
}

fn migrate_v1(bytes: &[u8]) -> Result<Value, String> {
    decode_migrated(&decode_trace_v1, &to_migrated, bytes)
}

fn migrate_v1_default_span(bytes: &[u8]) -> Result<Value, String> {
    decode_migrated(&decode_trace_v1, &to_default_span, bytes)
}

fn encode_json(value: &Value) -> Result<Vec<u8>, String> {
    match value {
        Value::Rid(text) => serde_json::to_vec(text).map_err(|e| e.to_string()),
        other => Err(format!("not a request id: {:?}", other)),
    }
}

fn decode_json(bytes: &[u8]) -> Result<Value, String> {
    serde_json::from_slice::<String>(bytes).map(Value::Rid).map_err(|e| e.to_string())
}

fn info<T: 'static>(name: &'static str) -> TypeInfo {
    TypeInfo { id: TypeId::of::<T>(), name }
}

fn rid_info() -> TypeInfo {
    info::<RequestId>("RequestId")
}

fn uid_info() -> TypeInfo {
    info::<UserId>("UserId")
}

fn trace_info() -> TypeInfo {
    info::<TraceV2>("TraceV2")
}

fn rid(text: &str) -> Value {
    Value::Rid(text.to_string())
}

fn typed<T: 'static>(value: Value) -> Arc<TypedValue<Value>> {
    Arc::new(TypedValue::new(TypeId::of::<T>(), value))
}

fn text_of(value: Option<Arc<TypedValue<Value>>>) -> Option<String> {
    value.map(|held| match &held.value {
        Value::Rid(text) | Value::Text(text) => text.clone(),
        Value::Probe(probe) => probe.text.clone(),
        other => panic!("not a text: {:?}", other),
    })
}

fn number_of(value: Option<Arc<TypedValue<Value>>>) -> Option<u64> {
    value.map(|held| match &held.value {
        Value::Uid(n) | Value::Counter(n) => *n,
        other => panic!("not a number: {:?}", other),
    })
}

fn trace_of(value: Option<Arc<TypedValue<Value>>>) -> Option<(String, String)> {
    value.map(|held| match &held.value {
        Value::Trace { trace_id, span_id } => (trace_id.clone(), span_id.clone()),
        other => panic!("not a trace: {:?}", other),
    })
}

fn unique_key(prefix: &str, suffix: &str) -> &'static str {
    let s = format!("{}_{}", prefix, suffix);
    Box::leak(s.into_boxed_str())
}

/// A registry, the cell of one thread and a configuration.
struct World {
    global: GlobalRegistry<Enc, Dec, ()>,
    cell: ContextCell<Value>,
    config: Config,
}

impl World {
    fn new() -> Self {
        World { global: GlobalRegistry::new(), cell: ContextCell::new(), config: Config::new() }
    }

    fn register_rid(&mut self, key: &'static str) {
        try_register(&mut self.global, key, rid_info(), decode_rid as Dec).unwrap();
    }

    fn register_uid(&mut self, key: &'static str) {
        try_register(&mut self.global, key, uid_info(), decode_uid as Dec).unwrap();
    }

    fn register_counter(&mut self, key: &'static str) {
        try_register(&mut self.global, key, info::<Counter>("Counter"), decode_counter as Dec)
            .unwrap();
    }

    fn register_text(&mut self, key: &'static str) {
        try_register(&mut self.global, key, info::<Text>("Val"), decode_text as Dec).unwrap();
    }

    fn register_rid_with<C: FnOnce(Options) -> Options>(&mut self, key: &'static str, f: C) {
        try_register_with(&mut self.global, key, rid_info(), decode_rid as Dec, f).unwrap();
    }

    fn register_trace(&mut self, key: &'static str) {
        try_register_with(
            &mut self.global,
            key,
            trace_info(),
            decode_trace as Dec,
            |o: Options| o.version(2),
        )
        .unwrap();
    }

    fn register_trace_migration(&mut self, key: &'static str, decoder: Dec) {
        try_register_migration(&mut self.global, key, trace_info(), 1, decoder).unwrap();
    }

    fn enter_scope(&mut self) -> ScopeGuard {
        context::enter(&mut self.cell, &self.global.registry(), None)
    }

    fn enter_named_scope(&mut self, name: &str) -> ScopeGuard {
        context::push_scope(&mut self.cell, &self.global.registry(), name)
    }

    fn leave(&mut self, guard: ScopeGuard) {
        context::leave_scope(&mut self.cell, guard.expected_depth());
    }

    fn set<T: 'static>(&mut self, key: &'static str, value: Value) {
        context::set_context_variable(&mut self.cell, key, TypeId::of::<T>(), value);
    }

    fn set_rid(&mut self, key: &'static str, text: &str) {
        self.set::<RequestId>(key, rid(text));
    }

    fn get<T: 'static>(&self, key: &str) -> Option<Arc<TypedValue<Value>>> {
        context::get_context_variable(&self.cell, key, &TypeId::of::<T>())
    }

    fn get_rid(&self, key: &str) -> Option<String> {
        text_of(self.get::<RequestId>(key))
    }

    fn get_uid(&self, key: &str) -> Option<u64> {
        number_of(self.get::<UserId>(key))
    }

    fn get_trace(&self, key: &str) -> Option<(String, String)> {
        trace_of(self.get::<TraceV2>(key))
    }

    fn update<T: 'static, F: FnOnce(&ContextCell<Value>, Value) -> Value>(
        &mut self,
        key: &'static str,
        default_value: Value,
        f: F,
    ) {
        context::update_context_variable(
            &mut self.cell,
            key,
            TypeId::of::<T>(),
            default_value,
            f,
        );
    }

    fn scope_chain(&self) -> Vec<String> {
        context::scope_chain(&self.cell, &self.config)
    }

    fn snapshot(&self) -> ContextSnapshot<Value> {
        context::capture(&self.cell, &self.global.registry(), &self.config)
    }

    fn hold(&mut self, snapshot: ContextSnapshot<Value>) -> AttachGuard<Value> {
        context::attach_snapshot(&mut self.cell, &self.global.registry(), snapshot)
    }

    fn detach(&mut self, guard: AttachGuard<Value>) {
        guard.detach(&mut self.cell);
    }

    fn serialize(&self) -> Result<Vec<u8>, ContextError> {
        self.snapshot().serialize(&self.global.registry(), &self.config)
    }

    fn deserialize(&mut self, bytes: &[u8]) -> Result<AttachGuard<Value>, ContextError> {
        let snapshot = ContextSnapshot::deserialize(&self.global.registry(), bytes)?;
        Ok(self.hold(snapshot))
    }

    fn into_store(&self, snapshot: ContextSnapshot<Value>) -> ContextStore<TypedValue<Value>> {
        store_from_snapshot_with_registry(snapshot, &self.global.registry())
    }

    fn clear(&mut self) {
        context::clear(&mut self.cell);
    }

    /// Start a fresh thread: the registry is shared, the context is not.
    fn on_another_thread<R, F: FnOnce(&mut World) -> R>(&mut self, f: F) -> R {
        let mine = std::mem::replace(&mut self.cell, ContextCell::new());
        let result = f(self);
        self.cell = mine;
        result
    }

    /// One poll of a future that carries a context.
    fn poll<R, F: FnOnce(&mut World) -> R>(&mut self, future: &mut WithContext<(), Value>, f: F) -> R {
        let prev = future.begin_poll(&mut self.cell);
        let result = f(self);
        future.end_poll(&mut self.cell, prev);
        result
    }

    fn with_snapshot<R, F: FnOnce(&mut World) -> R>(&mut self, snapshot: ContextSnapshot<Value>, f: F) -> R {
        let mut future = ().with(self.into_store(snapshot));
        self.poll(&mut future, f)
    }

    fn in_scope<R, F: FnOnce(&mut World) -> R>(&mut self, name: &str, f: F) -> R {
        let guard = self.enter_named_scope(name);
        let result = f(self);
        self.leave(guard);
        result
    }
}

fn names(list: &[&str]) -> Vec<String> {
    list.iter().map(|name| name.to_string()).collect()
}

// Registration

#[test]
fn test_register_and_get_default() {
    let mut w = World::new();
    let key = unique_key("reg_default", "rid");
    w.register_rid(key);
    let val = w.get_rid(key).unwrap_or_default();
    assert_eq!(val, String::default());
}

#[test]
fn test_try_register_idempotent() {
    let mut w = World::new();
    let key = unique_key("reg_idem", "rid");
    try_register(&mut w.global, key, rid_info(), decode_rid as Dec).unwrap();
    try_register(&mut w.global, key, rid_info(), decode_rid as Dec).unwrap();
}

#[test]
fn test_try_register_conflict() {
    let mut w = World::new();
    let key = unique_key("reg_conflict", "val");
    try_register(&mut w.global, key, rid_info(), decode_rid as Dec).unwrap();
    let err = try_register(&mut w.global, key, uid_info(), decode_uid as Dec).unwrap_err();
    assert!(matches!(err, ContextError::AlreadyRegistered(_)));
}

#[test]
fn test_get_unregistered_returns_none() {
    let w = World::new();
    let key = unique_key("unreg_none", "missing");
    assert_eq!(w.get_rid(key), None);
}

// Getting and setting

#[test]
fn test_set_and_get() {
    let mut w = World::new();
    let key = unique_key("set_get", "rid");
    w.register_rid(key);
    w.set_rid(key, "req-42");
    assert_eq!(w.get_rid(key).unwrap(), "req-42");
}

// Scopes

#[test]
fn test_scope_shadows_and_reverts() {
    let mut w = World::new();
    let key = unique_key("scope_shadow", "rid");
    w.register_rid(key);
    w.set_rid(key, "parent");

    let guard = w.enter_scope();
    w.set_rid(key, "child");
    assert_eq!(w.get_rid(key).unwrap(), "child");
    w.leave(guard);

    assert_eq!(w.get_rid(key).unwrap(), "parent");
}

#[test]
fn test_nested_scopes() {
    let mut w = World::new();
    let key = unique_key("nested_scope", "rid");
    w.register_rid(key);
    w.set_rid(key, "root");

    let g1 = w.enter_scope();
    w.set_rid(key, "level1");
    let g2 = w.enter_scope();
    w.set_rid(key, "level2");
    assert_eq!(w.get_rid(key).unwrap(), "level2");
    w.leave(g2);
    assert_eq!(w.get_rid(key).unwrap(), "level1");
    w.leave(g1);
    assert_eq!(w.get_rid(key).unwrap(), "root");
}

#[test]
fn test_scope_fn() {
    let mut w = World::new();
    let key = unique_key("scope_fn", "rid");
    w.register_rid(key);
    w.set_rid(key, "before");

    let guard = w.enter_scope();
    w.set_rid(key, "inside");
    assert_eq!(w.get_rid(key).unwrap(), "inside");
    w.leave(guard);

    assert_eq!(w.get_rid(key).unwrap(), "before");
}

#[test]
fn test_scope_inherits_parent() {
    let mut w = World::new();
    let key = unique_key("scope_inherit", "rid");
    w.register_rid(key);
    w.set_rid(key, "parent_val");

    let guard = w.enter_scope();
    assert_eq!(w.get_rid(key).unwrap(), "parent_val");
    w.leave(guard);
}

#[test]
fn test_scope_partial_override() {
    let mut w = World::new();
    let key_a = unique_key("scope_partial", "a");
    let key_b = unique_key("scope_partial", "b");
    w.register_rid(key_a);
    w.register_uid(key_b);
    w.set_rid(key_a, "a_parent");
    w.set::<UserId>(key_b, Value::Uid(10));

    let guard = w.enter_scope();
    w.set_rid(key_a, "a_child");
    assert_eq!(w.get_rid(key_a).unwrap(), "a_child");
    assert_eq!(w.get_uid(key_b).unwrap(), 10);
    w.leave(guard);

    assert_eq!(w.get_rid(key_a).unwrap(), "a_parent");
    assert_eq!(w.get_uid(key_b).unwrap(), 10);
}

// Snapshots

#[test]
fn test_snapshot_captures_current() {
    let mut w = World::new();
    let key = unique_key("snap_capture", "rid");
    w.register_rid(key);
    w.set_rid(key, "snapped");

    let snap = w.snapshot();
    w.set_rid(key, "modified");

    let guard = w.hold(snap);
    assert_eq!(w.get_rid(key).unwrap(), "snapped");
    w.detach(guard);

    assert_eq!(w.get_rid(key).unwrap(), "modified");
}

#[test]
fn test_snapshot_empty_context() {
    let mut w = World::new();
    let key = unique_key("snap_empty", "rid");
    w.register_rid(key);
    let guard = w.hold(ContextSnapshot::empty());
    assert_eq!(w.get_rid(key), None);
    assert!(w.scope_chain().is_empty());
    w.detach(guard);
}

// Other threads

#[test]
fn test_spawn_with_context() {
    let mut w = World::new();
    let key = unique_key("thread_spawn", "rid");
    w.register_rid(key);
    w.set_rid(key, "main-thread");

    let snap = w.snapshot();
    let result = w.on_another_thread(|w| {
        let _guard = w.hold(snap);
        w.get_rid(key).unwrap()
    });
    assert_eq!(result, "main-thread");
}

#[test]
fn test_wrap_with_context_fn_once() {
    let mut w = World::new();
    let key = unique_key("wrap_once", "rid");
    w.register_rid(key);
    w.set_rid(key, "wrapped");

    let snap = w.snapshot();
    let wrapped = move |w: &mut World| {
        let _guard = w.hold(snap);
        w.get_rid(key).unwrap()
    };
    w.set_rid(key, "changed");

    let result = w.on_another_thread(wrapped);
    assert_eq!(result, "wrapped");
    assert_eq!(w.get_rid(key).unwrap(), "changed");
}

#[test]
fn test_wrap_with_context_fn_multi() {
    let mut w = World::new();
    let key = unique_key("wrap_multi", "rid");
    w.register_rid(key);
    w.set_rid(key, "multi");

    let snap = w.snapshot();
    let wrapped = |w: &mut World| {
        let guard = w.hold(snap.clone());
        let result = w.get_rid(key).unwrap();
        w.detach(guard);
        result
    };
    let r1 = wrapped(&mut w);
    let r2 = wrapped(&mut w);
    assert_eq!(r1, "multi");
    assert_eq!(r2, "multi");
}

// Serialization

#[test]
fn test_serialize_deserialize_roundtrip() {
    let mut w = World::new();
    let key = unique_key("serde_rt", "rid");
    w.register_rid(key);
    w.set_rid(key, "serialized");

    let bytes = w.serialize().unwrap();
    let guard = w.deserialize(&bytes).unwrap();
    assert_eq!(w.get_rid(key).unwrap(), "serialized");
    w.detach(guard);
}

#[test]
fn test_serialize_deserialize_string_roundtrip() {
    let mut w = World::new();
    let key = unique_key("serde_str", "rid");
    w.register_rid(key);
    w.set_rid(key, "base64val");

    let encoded = base64::engine::general_purpose::STANDARD.encode(w.serialize().unwrap());
    assert!(!encoded.is_empty());

    let scope = w.enter_scope();
    w.set_rid(key, "cleared");
    let bytes = base64::engine::general_purpose::STANDARD.decode(&encoded).unwrap();
    let guard = w.deserialize(&bytes).unwrap();
    assert_eq!(w.get_rid(key).unwrap(), "base64val");
    w.detach(guard);
    w.leave(scope);
}

#[test]
fn test_deserialize_unknown_keys_skipped() {
    let mut w = World::new();
    let key = unique_key("serde_skip", "rid");
    w.register_rid(key);
    w.set_rid(key, "known");

    let bytes = w.serialize().unwrap();
    let guard = w.deserialize(&bytes).unwrap();
    assert_eq!(w.get_rid(key).unwrap(), "known");
    w.detach(guard);

    // Where the key is not registered, it is passed over.
    let mut other = World::new();
    let guard = other.deserialize(&bytes).unwrap();
    assert_eq!(other.get_rid(key), None);
    other.detach(guard);
}

#[test]
fn test_serialize_multiple_keys() {
    let mut w = World::new();
    let key_a = unique_key("serde_multi", "a");
    let key_b = unique_key("serde_multi", "b");
    w.register_rid(key_a);
    w.register_uid(key_b);
    w.set_rid(key_a, "req-multi");
    w.set::<UserId>(key_b, Value::Uid(42));

    let bytes = w.serialize().unwrap();
    let scope = w.enter_scope();
    let guard = w.deserialize(&bytes).unwrap();
    assert_eq!(w.get_rid(key_a).unwrap(), "req-multi");
    assert_eq!(w.get_uid(key_b).unwrap(), 42);
    w.detach(guard);
    w.leave(scope);
}

#[test]
fn test_serialize_deserialize_with_isolated_registry() {
    let key_rid = "isolated.serialize.request_id";
    let key_uid = "isolated.serialize.user_id";
    let mut builder: RegistryBuilder<Enc, Dec, ()> = RegistryBuilder::new();
    builder.register(key_rid, rid_info(), decode_rid as Dec);
    builder.register_with(key_uid, uid_info(), decode_uid as Dec, |opts: Options| opts.version(2));
    let map = builder.into_map();
    let registry = Registry::new(&map);

    let mut values: KeyMap<Arc<TypedValue<Value>>> = KeyMap::new();
    values.insert(key_rid, typed::<RequestId>(rid("iso-req")));
    values.insert(key_uid, typed::<UserId>(Value::Uid(7)));

    let bytes =
        serialize_from(&registry, &Config::new(), &values, names(&["rpc", "handler"])).unwrap();
    let snap: ContextSnapshot<Value> = deserialize_to_snapshot(&registry, &bytes).unwrap();
    assert_eq!(snap.scope_chain(), &["rpc".to_string(), "handler".to_string()]);
    assert_eq!(text_of(snap.get_value(key_rid)), Some("iso-req".to_string()));
    assert_eq!(number_of(snap.get_value(key_uid)), Some(7));
}

#[test]
fn test_capture_with_custom_registry_excludes_local() {
    let key_public = "isolated.capture.public";
    let key_local = "isolated.capture.local";
    let mut builder: RegistryBuilder<Enc, Dec, ()> = RegistryBuilder::new();
    builder.register(key_public, rid_info(), decode_rid as Dec);
    builder.register_with(key_local, uid_info(), decode_uid as Dec, |opts: Options| {
        opts.local_only()
    });
    let map = builder.into_map();
    let registry = Registry::new(&map);

    let mut store: ContextStore<TypedValue<Value>> = ContextStore::new();
    store.set_value(key_public, typed::<RequestId>(rid("root")));
    store.set_value(key_local, typed::<UserId>(Value::Uid(1)));
    store.push_scope(&registry, Some("request".into()));
    store.set_value(key_public, typed::<RequestId>(rid("child")));
    store.set_value(key_local, typed::<UserId>(Value::Uid(2)));

    let snap = capture_with_registry(&store, &registry, &Config::new());
    assert_eq!(snap.scope_chain(), &["request".to_string()]);
    assert_eq!(text_of(snap.get_value(key_public)), Some("child".to_string()));
    assert!(snap.get_value(key_local).is_none());
}

#[test]
fn test_from_snapshot_with_isolated_registry_filters_invalid() {
    let key_valid = "isolated.snapshot.valid";
    let key_local = "isolated.snapshot.local";
    let key_mismatch = "isolated.snapshot.mismatch";
    let key_unknown = "isolated.snapshot.unknown";
    let mut builder: RegistryBuilder<Enc, Dec, ()> = RegistryBuilder::new();
    builder.register(key_valid, rid_info(), decode_rid as Dec);
    builder.register_with(key_local, uid_info(), decode_uid as Dec, |opts: Options| {
        opts.local_only()
    });
    builder.register(key_mismatch, uid_info(), decode_uid as Dec);
    let map = builder.into_map();
    let registry = Registry::new(&map);

    let mut values: KeyMap<Arc<TypedValue<Value>>> = KeyMap::new();
    values.insert(key_valid, typed::<RequestId>(rid("keep-me")));
    values.insert(key_local, typed::<UserId>(Value::Uid(9)));
    values.insert(key_mismatch, typed::<RequestId>(rid("wrong-type")));
    values.insert(key_unknown, typed::<RequestId>(rid("unknown")));
    let snap = ContextSnapshot::new(values, names(&["remote"]));

    let store = store_from_snapshot_with_registry(snap, &registry);
    assert_eq!(store.scope_chain(64), names(&["remote"]));
    assert_eq!(text_of(store.get_value(key_valid)), Some("keep-me".to_string()));
    assert!(store.get_value(key_local).is_none());
    assert!(store.get_value(key_mismatch).is_none());
    assert!(store.get_value(key_unknown).is_none());
}

#[test]
fn test_push_scope_caches_with_isolated_registry() {
    let key_cached = "isolated.cache.cached";
    let key_plain = "isolated.cache.plain";
    let mut builder: RegistryBuilder<Enc, Dec, ()> = RegistryBuilder::new();
    builder.register_with(key_cached, rid_info(), decode_rid as Dec, |opts: Options| {
        opts.cached()
    });
    builder.register(key_plain, uid_info(), decode_uid as Dec);
    let map = builder.into_map();
    let registry = Registry::new(&map);

    let mut store: ContextStore<TypedValue<Value>> = ContextStore::new();
    store.set_value(key_cached, typed::<RequestId>(rid("cached-root")));
    store.set_value(key_plain, typed::<UserId>(Value::Uid(42)));

    let depth = store.push_scope(&registry, Some("child".into()));
    assert_eq!(depth, 2);
    assert!(store.holds_in_scope(key_cached));
    assert!(!store.holds_in_scope(key_plain));
    assert_eq!(text_of(store.get_value(key_cached)), Some("cached-root".to_string()));
    assert_eq!(number_of(store.get_value(key_plain)), Some(42));
}

#[test]
fn test_try_get_registered_but_unset() {
    let mut w = World::new();
    let key = unique_key("try_get_none", "rid");
    w.register_rid(key);
    let result = w.get_rid(key);
    assert!(result.is_none());
}

// Typed keys

#[test]
fn test_context_key_register_and_get() {
    let mut w = World::new();
    let key = ContextKey::new("test_ck_rid", rid_info());
    w.register_rid(key.key());
    key.set(&mut w.cell, rid("ck-val"));
    assert_eq!(text_of(key.get(&w.cell)).unwrap(), "ck-val");
}

#[test]
fn test_context_key_try_get_none() {
    let mut w = World::new();
    let key = ContextKey::new(unique_key("ck_none", "uid"), uid_info());
    w.register_uid(key.key());
    assert!(key.get(&w.cell).is_none());
}

#[test]
fn test_register_contexts_macro() {
    let mut w = World::new();
    let key_a = unique_key("macro_reg", "a");
    let key_b = unique_key("macro_reg", "b");
    w.register_rid(key_a);
    w.register_uid(key_b);
    w.set_rid(key_a, "macro-a");
    w.set::<UserId>(key_b, Value::Uid(77));
    assert_eq!(w.get_rid(key_a).unwrap(), "macro-a");
    assert_eq!(w.get_uid(key_b).unwrap(), 77);
}

// Size limit

#[test]
fn test_set_max_context_size_enforced() {
    let mut w = World::new();
    let key = unique_key("size_limit", "rid");
    w.register_rid(key);
    w.set_rid(key, "some-value");

    set_max_context_size(&mut w.config, 5);
    assert_eq!(max_context_size(&w.config), 5);
    let result = w.serialize();
    assert!(matches!(result, Err(ContextError::ContextTooLarge { .. })));

    set_max_context_size(&mut w.config, 0);
    let result = w.serialize();
    assert!(result.is_ok());
}

// Migration

#[test]
fn test_migration_v1_to_v2() {
    let mut w = World::new();
    let key = unique_key("migrate_v1v2", "trace");
    w.register_trace(key);
    w.register_trace_migration(key, migrate_v1);

    let v1_bytes = bincode::serialize("tid-old").unwrap();
    let registry = w.global.registry();
    let result = registry.with_registration(key, |reg| {
        let decode = reg.deserializers.get(&1).expect("v1 deserializer missing");
        decode(&v1_bytes)
    });
    match result.unwrap().unwrap() {
        Value::Trace { trace_id, span_id } => {
            assert_eq!(trace_id, "tid-old");
            assert_eq!(span_id, "migrated");
        }
        other => panic!("not a trace: {:?}", other),
    }
}

#[test]
fn test_migration_end_to_end() {
    let mut w = World::new();
    let key = unique_key("migrate_e2e", "ctx");
    w.register_trace(key);
    w.register_trace_migration(key, migrate_v1_default_span);

    let v1_value_bytes = bincode::serialize("from-v1-sender").unwrap();
    let wire = make_wire_bytes(key, 1, &v1_value_bytes);

    w.on_another_thread(|w| {
        let _guard = w.deserialize(&wire).unwrap();
        let (trace_id, span_id) = w.get_trace(key).unwrap();
        assert_eq!(trace_id, "from-v1-sender");
        assert_eq!(span_id, "default-span");
    });
}

#[test]
fn test_migration_unknown_version_errors() {
    let mut w = World::new();
    let key = unique_key("migrate_unknown", "ctx");
    w.register_trace(key);
    let registry = w.global.registry();
    let has_v1 = registry.with_registration(key, |reg| reg.deserializers.contains_key(&1));
    assert_eq!(has_v1, Some(false));
}

#[test]
fn test_migration_current_version_still_works() {
    let mut w = World::new();
    let key = unique_key("migrate_current", "ctx");
    w.register_trace(key);
    w.register_trace_migration(key, migrate_v1);

    let outer = w.enter_scope();
    w.set::<TraceV2>(
        key,
        Value::Trace { trace_id: "current".into(), span_id: "current-span".into() },
    );
    let bytes = w.serialize().unwrap();

    let inner = w.enter_scope();
    let guard = w.deserialize(&bytes).unwrap();
    let (trace_id, span_id) = w.get_trace(key).unwrap();
    assert_eq!(trace_id, "current");
    assert_eq!(span_id, "current-span");
    w.detach(guard);
    w.leave(inner);
    w.leave(outer);
}

#[test]
fn test_migration_rejects_current_version() {
    let mut w = World::new();
    let key = unique_key("migrate_reject", "ctx");
    w.register_trace(key);
    let result =
        try_register_migration(&mut w.global, key, trace_info(), 2, migrate_v1 as Dec);
    assert!(result.is_err());
    let err = result.unwrap_err();
    assert!(matches!(err, ContextError::DeserializationFailed(_)));
}

// Codecs

#[test]
fn test_register_with_json_codec() {
    let mut w = World::new();
    let key = unique_key("codec_json", "rid");
    w.register_rid_with(key, |o| o.codec(encode_json as Enc, decode_json as Dec));

    let outer = w.enter_scope();
    w.set_rid(key, "json-encoded");
    let bytes = w.serialize().unwrap();

    let inner = w.enter_scope();
    let guard = w.deserialize(&bytes).unwrap();
    assert_eq!(w.get_rid(key).unwrap(), "json-encoded");
    w.detach(guard);
    w.leave(inner);
    w.leave(outer);
}

#[test]
fn test_json_codec_wire_bytes_are_json() {
    let mut w = World::new();
    let key = unique_key("codec_json_verify", "rid");
    w.register_rid_with(key, |o| o.codec(encode_json as Enc, decode_json as Dec));

    let _guard = w.enter_scope();
    w.set_rid(key, "verify-json");
    let wire_bytes = w.serialize().unwrap();

    // The bytes of the value are JSON text.
    let json = b"\"verify-json\"";
    assert!(wire_bytes.windows(json.len()).any(|part| part == json));

    w.on_another_thread(|w| {
        w.register_rid_with(key, |o| o.codec(encode_json as Enc, decode_json as Dec));
        let _guard = w.deserialize(&wire_bytes).unwrap();
        assert_eq!(w.get_rid(key).unwrap(), "verify-json");
    });
}

#[test]
fn test_default_codec_still_works() {
    let mut w = World::new();
    let key = unique_key("codec_default", "rid");
    w.register_rid(key);

    let outer = w.enter_scope();
    w.set_rid(key, "bincode-default");
    let bytes = w.serialize().unwrap();

    let inner = w.enter_scope();
    let guard = w.deserialize(&bytes).unwrap();
    assert_eq!(w.get_rid(key).unwrap(), "bincode-default");
    w.detach(guard);
    w.leave(inner);
    w.leave(outer);
}

#[test]
fn test_local_only_rejects_codec() {
    let mut w = World::new();
    let key = unique_key("local_codec", "rid");
    let result =
        try_register_with(&mut w.global, key, rid_info(), decode_rid as Dec, |o: Options| {
            o.local_only().codec(encode_json as Enc, decode_json as Dec)
        });
    assert!(result.is_err());
    assert!(matches!(result.unwrap_err(), ContextError::SerializationFailed(_)));
}

#[test]
fn test_local_only_rejects_version() {
    let mut w = World::new();
    let key = unique_key("local_version", "rid");
    let result =
        try_register_with(&mut w.global, key, rid_info(), decode_rid as Dec, |o: Options| {
            o.local_only().version(2)
        });
    assert!(result.is_err());
    assert!(matches!(result.unwrap_err(), ContextError::SerializationFailed(_)));
}

#[test]
fn test_local_only_builder_excludes_from_serialization() {
    let mut w = World::new();
    let key = unique_key("local_builder_ser", "rid");
    w.register_rid_with(key, |o| o.local_only());

    let _scope = w.enter_scope();
    w.set_rid(key, "should-not-serialize");
    let bytes = w.serialize().unwrap();

    w.on_another_thread(|w| {
        let _guard = w.deserialize(&bytes).unwrap();
        let val = w.get_rid(key);
        assert!(
            val.is_none(),
            "local_only value registered via builder should not survive serialization"
        );
    });
}

// Futures that carry a context, one poll each

#[test]
fn test_with_context_basic() {
    let mut w = World::new();
    let key = unique_key("async_basic", "rid");
    w.register_rid(key);
    w.set_rid(key, "async-val");
    let snap = w.snapshot();
    let result = w.with_snapshot(snap, |w| w.get_rid(key).unwrap());
    assert_eq!(result, "async-val");
}

#[test]
fn test_scope_async() {
    let mut w = World::new();
    let key = unique_key("scope_async", "rid");
    w.register_rid(key);
    w.set_rid(key, "before-async");
    let snap = w.snapshot();
    w.with_snapshot(snap, |w| {
        assert_eq!(w.get_rid(key).unwrap(), "before-async");
        w.in_scope("", |w| {
            w.set_rid(key, "inside-async");
            assert_eq!(w.get_rid(key).unwrap(), "inside-async");
        });
        assert_eq!(w.get_rid(key).unwrap(), "before-async");
    });
}

#[test]
fn test_spawn_with_context_async() {
    let mut w = World::new();
    let key = unique_key("async_spawn", "rid");
    w.register_rid(key);
    w.set_rid(key, "spawned-async");
    let snap = w.snapshot();
    let child_snap = w.with_snapshot(snap, |w| w.snapshot());
    let result =
        w.on_another_thread(|w| w.with_snapshot(child_snap, |w| w.get_rid(key).unwrap()));
    assert_eq!(result, "spawned-async");
}

#[test]
fn test_async_scope_isolation() {
    let mut w = World::new();
    let key = unique_key("async_scope_iso", "rid");
    w.register_rid(key);
    w.set_rid(key, "outer");
    let snap = w.snapshot();
    w.with_snapshot(snap, |w| {
        assert_eq!(w.get_rid(key).unwrap(), "outer");
        w.in_scope("", |w| {
            w.set_rid(key, "inner");
            assert_eq!(w.get_rid(key).unwrap(), "inner");
        });
        assert_eq!(w.get_rid(key).unwrap(), "outer");
    });
}

#[test]
fn test_async_serialize_roundtrip() {
    let mut w = World::new();
    let key = unique_key("async_serde", "rid");
    w.register_rid(key);
    w.set_rid(key, "async-serde");
    let snap = w.snapshot();
    w.with_snapshot(snap, |w| {
        let bytes = w.serialize().unwrap();
        w.set_rid(key, "cleared");
        let guard = w.deserialize(&bytes).unwrap();
        assert_eq!(w.get_rid(key).unwrap(), "async-serde");
        w.detach(guard);
    });
}

// Scope chains

#[test]
fn test_scope_chain_empty_by_default() {
    let w = World::new();
    let chain = w.scope_chain();
    assert!(chain.is_empty(), "default scope chain should be empty");
}

#[test]
fn test_scope_chain_named_scope() {
    let mut w = World::new();
    let _g = w.enter_named_scope("outer");
    assert_eq!(w.scope_chain(), vec!["outer"]);
    let g2 = w.enter_named_scope("inner");
    assert_eq!(w.scope_chain(), vec!["outer", "inner"]);
    w.leave(g2);
    assert_eq!(w.scope_chain(), vec!["outer"]);
}

#[test]
fn test_scope_chain_unnamed_invisible() {
    let mut w = World::new();
    let _g1 = w.enter_named_scope("named");
    let _g2 = w.enter_scope();
    let _g3 = w.enter_named_scope("also-named");
    assert_eq!(w.scope_chain(), vec!["named", "also-named"]);
}

#[test]
fn test_scope_chain_snapshot_preserves_chain() {
    let mut w = World::new();
    let _g = w.enter_named_scope("request-handler");
    let snap = w.snapshot();
    assert_eq!(snap.scope_chain(), &["request-handler".to_string()]);

    let scope = w.enter_scope();
    let guard = w.hold(snap.clone());
    assert_eq!(w.scope_chain(), vec!["request-handler"]);
    let g2 = w.enter_named_scope("sub-handler");
    assert_eq!(w.scope_chain(), vec!["request-handler", "sub-handler"]);
    w.leave(g2);
    w.detach(guard);
    w.leave(scope);
}

#[test]
fn test_scope_chain_serialize_roundtrip() {
    let mut w = World::new();
    let key = unique_key("sc_serde", "rid");
    w.register_rid(key);
    let _g1 = w.enter_named_scope("app");
    let _g2 = w.enter_named_scope("service");
    w.set_rid(key, "req-1");
    let bytes = w.serialize().unwrap();

    let scope = w.enter_scope();
    let guard = w.deserialize(&bytes).unwrap();
    assert_eq!(w.get_rid(key).unwrap(), "req-1");
    assert_eq!(w.scope_chain(), vec!["app", "service"]);
    let g3 = w.enter_named_scope("handler");
    assert_eq!(w.scope_chain(), vec!["app", "service", "handler"]);
    w.leave(g3);
    w.detach(guard);
    w.leave(scope);
}

#[test]
fn test_scope_chain_wire_v1_compat() {
    let mut w = World::new();
    let key = unique_key("sc_v1", "rid");
    w.register_rid(key);
    let value_bytes = bincode::serialize("v1-value").unwrap();
    let v1_bytes = make_wire_bytes_v(1, key, 1, &value_bytes);

    let scope = w.enter_scope();
    let guard = w.deserialize(&v1_bytes).unwrap();
    assert_eq!(w.get_rid(key).unwrap(), "v1-value");
    assert!(w.scope_chain().is_empty());
    w.detach(guard);
    w.leave(scope);
}

#[test]
fn test_scope_chain_remote_chain_lifo_restore() {
    let mut w = World::new();
    let key = unique_key("sc_lifo", "rid");
    w.register_rid(key);
    let _g = w.enter_named_scope("local-root");
    let _g1 = w.enter_named_scope("sender-scope");
    w.set_rid(key, "first");
    let bytes1 = w.serialize().unwrap();

    let scope = w.enter_scope();
    let guard1 = w.deserialize(&bytes1).unwrap();
    assert_eq!(w.scope_chain(), vec!["local-root", "sender-scope"]);

    let _g2 = w.enter_named_scope("nested-scope");
    let bytes2 = w.serialize().unwrap();
    let inner = w.enter_scope();
    let guard2 = w.deserialize(&bytes2).unwrap();
    assert_eq!(w.scope_chain(), vec!["local-root", "sender-scope", "nested-scope"]);
    w.detach(guard2);
    w.leave(inner);

    assert_eq!(w.scope_chain(), vec!["local-root", "sender-scope", "nested-scope"]);
    w.detach(guard1);
    w.leave(scope);
}

#[test]
fn test_scope_chain_with_context() {
    let mut w = World::new();
    let _g = w.enter_named_scope("pre-send");
    let snap = w.snapshot();
    w.with_snapshot(snap, |w| {
        assert_eq!(w.scope_chain(), vec!["pre-send"]);
        w.in_scope("handler", |w| {
            assert_eq!(w.scope_chain(), vec!["pre-send", "handler"]);
        });
    });
}

#[test]
fn test_named_scope_async_basic() {
    let mut w = World::new();
    let snap = w.in_scope("root", |w| w.snapshot());
    w.with_snapshot(snap, |w| {
        w.in_scope("level-1", |w| {
            assert_eq!(w.scope_chain(), vec!["root", "level-1"]);
            w.in_scope("level-2", |w| {
                assert_eq!(w.scope_chain(), vec!["root", "level-1", "level-2"]);
            });
        });
    });
}

// Values that are read or dropped around a change

#[test]
fn test_reentrant_read_during_scope_enter() {
    let mut w = World::new();
    let key = unique_key("reentrant_enter", "rid");
    w.register_rid(key);
    w.set_rid(key, "parent-val");
    let _g = w.enter_scope();
    assert_eq!(w.get_rid(key).unwrap(), "parent-val");
}

#[test]
fn test_reentrant_read_during_scope_leave() {
    let mut w = World::new();
    let key = unique_key("reentrant_leave", "rid");
    w.register_rid(key);
    w.set_rid(key, "base");
    let g = w.enter_scope();
    w.set_rid(key, "child");
    assert_eq!(w.get_rid(key).unwrap(), "child");
    w.leave(g);
    assert_eq!(w.get_rid(key).unwrap(), "base");
}

#[test]
fn test_reentrant_read_during_set_context() {
    let mut w = World::new();
    let key_a = unique_key("reentrant_set", "a");
    let key_b = unique_key("reentrant_set", "b");
    w.register_rid(key_a);
    w.register_rid(key_b);
    w.set_rid(key_a, "aaa");
    w.set_rid(key_b, "bbb");
    assert_eq!(w.get_rid(key_a).unwrap(), "aaa");
    assert_eq!(w.get_rid(key_b).unwrap(), "bbb");
}

#[test]
fn test_reentrant_drop_on_value_overwrite() {
    let mut w = World::new();
    let key = unique_key("reentrant_drop_overwrite", "val");
    let dropped = Rc::new(RefCell::new(Vec::new()));
    let probe = |text: &str| {
        Value::Probe(Probe { text: text.to_string(), dropped: Rc::clone(&dropped) })
    };
    w.set::<DropLogged>(key, probe("first"));
    w.set::<DropLogged>(key, probe("second"));
    assert_eq!(dropped.borrow().as_slice(), &["first".to_string()]);
    assert_eq!(text_of(w.get::<DropLogged>(key)).unwrap(), "second");
}

#[test]
fn test_reentrant_drop_on_scope_leave() {
    let mut w = World::new();
    let key = unique_key("reentrant_drop_leave", "val");
    let dropped = Rc::new(RefCell::new(Vec::new()));
    let probe = |text: &str| {
        Value::Probe(Probe { text: text.to_string(), dropped: Rc::clone(&dropped) })
    };
    w.set::<DropLogged>(key, probe("root"));
    let g = w.enter_scope();
    w.set::<DropLogged>(key, probe("child-scope"));
    w.leave(g);
    assert_eq!(dropped.borrow().as_slice(), &["child-scope".to_string()]);
    assert_eq!(text_of(w.get::<DropLogged>(key)).unwrap(), "root");
}

#[test]
fn test_scope_push_pop_integrity_across_many_levels() {
    let mut w = World::new();
    let key = unique_key("stress_scope", "rid");
    w.register_rid(key);
    w.set_rid(key, "root");

    let depth = 50;
    let mut guards: Vec<ScopeGuard> = Vec::new();
    for i in 0..depth {
        guards.push(w.enter_named_scope(&format!("scope-{}", i)));
        w.set_rid(key, &format!("val-{}", i));
    }
    assert_eq!(w.get_rid(key).unwrap(), format!("val-{}", depth - 1));

    for i in (0..depth).rev() {
        let guard = guards.pop().unwrap();
        w.leave(guard);
        if i > 0 {
            assert_eq!(w.get_rid(key).unwrap(), format!("val-{}", i - 1));
        }
    }
    assert_eq!(w.get_rid(key).unwrap(), "root");
}

#[test]
fn test_scope_chain_integrity_after_many_push_pops() {
    let mut w = World::new();
    let key = unique_key("chain_stress", "rid");
    w.register_rid(key);
    for round in 0..10 {
        let name = format!("round-{}", round);
        let g = w.enter_named_scope(&name);
        let chain = w.scope_chain();
        assert!(chain.last().map(|s| s.as_str()) == Some(name.as_str()));
        w.leave(g);
    }
    assert!(w.scope_chain().is_empty());
}

// Updates

fn add(by: u64) -> impl FnOnce(&ContextCell<Value>, Value) -> Value {
    move |_cell, value| match value {
        Value::Counter(n) => Value::Counter(n + by),
        Value::Uid(n) => Value::Uid(n + by),
        other => other,
    }
}

#[test]
fn test_update_context_basic() {
    let mut w = World::new();
    let key = unique_key("update_ctx", "counter");
    w.register_counter(key);
    w.set::<Counter>(key, Value::Counter(10));
    w.update::<Counter, _>(key, Value::Counter(0), self::add(5));
    assert_eq!(number_of(w.get::<Counter>(key)).unwrap(), 15);
}

#[test]
fn test_update_context_default_when_unset() {
    let mut w = World::new();
    let key = unique_key("update_default", "counter");
    w.register_counter(key);
    w.update::<Counter, _>(key, Value::Counter(0), self::add(1));
    assert_eq!(number_of(w.get::<Counter>(key)).unwrap(), 1);
}

#[test]
fn test_update_context_callback_can_read_other_keys() {
    let mut w = World::new();
    let key_a = unique_key("update_read_other", "a");
    let key_b = unique_key("update_read_other", "b");
    w.register_rid(key_a);
    w.register_rid(key_b);
    w.set_rid(key_a, "aaa");
    w.set_rid(key_b, "bbb");

    w.update::<RequestId, _>(key_a, rid(""), |cell, _old| {
        let b = text_of(context::get_context_variable(cell, key_b, &TypeId::of::<RequestId>()));
        Value::Rid(format!("merged-{}", b.unwrap()))
    });
    assert_eq!(w.get_rid(key_a).unwrap(), "merged-bbb");
    assert_eq!(w.get_rid(key_b).unwrap(), "bbb");
}

#[test]
fn test_update_context_in_scope_reverts() {
    let mut w = World::new();
    let key = unique_key("update_scope_revert", "val");
    w.register_text(key);
    w.set::<Text>(key, Value::Text("root".into()));

    let g = w.enter_scope();
    w.update::<Text, _>(key, Value::Text(String::new()), |_cell, _old| {
        Value::Text("updated-in-child".into())
    });
    assert_eq!(text_of(w.get::<Text>(key)).unwrap(), "updated-in-child");
    w.leave(g);
    assert_eq!(text_of(w.get::<Text>(key)).unwrap(), "root");
}

#[test]
fn test_get_context_option_some_and_none() {
    let mut w = World::new();
    let key_set = unique_key("get_opt", "set");
    let key_unset = unique_key("get_opt", "unset");
    w.register_rid(key_set);
    w.register_rid(key_unset);
    w.set_rid(key_set, "hello");
    assert_eq!(w.get_rid(key_set), Some("hello".to_string()));
    assert_eq!(w.get_rid(key_unset), None);
}

#[test]
fn test_snapshot_uses_arc_sharing() {
    let mut w = World::new();
    let key = unique_key("snap_arc", "rid");
    w.register_rid(key);
    w.set_rid(key, "original");
    let snap = w.snapshot();
    let held = w.get::<RequestId>(key).unwrap();
    assert!(Arc::ptr_eq(&held, &snap.get_value(key).unwrap()));

    w.set_rid(key, "modified");
    let g = w.hold(snap);
    assert_eq!(w.get_rid(key).unwrap(), "original");
    w.detach(g);
    assert_eq!(w.get_rid(key).unwrap(), "modified");
}

#[test]
fn test_concurrent_scope_and_read_no_panic() {
    let mut w = World::new();
    let key = unique_key("concurrent_rw", "rid");
    w.register_rid(key);
    w.set_rid(key, "base");
    for i in 0..100 {
        w.set_rid(key, &format!("iter-{}", i));
        assert_eq!(w.get_rid(key).unwrap(), format!("iter-{}", i));
    }
}

#[test]
fn test_cached_key_o1_read_in_nested_scopes() {
    let mut w = World::new();
    let key = unique_key("cached_read", "rid");
    w.register_rid_with(key, |opts| opts.cached());
    w.set_rid(key, "root-val");

    let g1 = w.enter_scope();
    assert_eq!(w.get_rid(key).unwrap(), "root-val");
    assert!(w.cell.store.as_ref().unwrap().holds_in_scope(key));
    let g2 = w.enter_scope();
    assert_eq!(w.get_rid(key).unwrap(), "root-val");
    w.set_rid(key, "inner-val");
    assert_eq!(w.get_rid(key).unwrap(), "inner-val");
    w.leave(g2);
    assert_eq!(w.get_rid(key).unwrap(), "root-val");
    w.leave(g1);
    assert_eq!(w.get_rid(key).unwrap(), "root-val");
}

#[test]
fn test_non_cached_key_walks_parents() {
    let mut w = World::new();
    let key = unique_key("non_cached", "rid");
    w.register_rid(key);
    w.set_rid(key, "root-val");

    let g1 = w.enter_scope();
    assert_eq!(w.get_rid(key).unwrap(), "root-val");
    w.set_rid(key, "child-val");
    assert_eq!(w.get_rid(key).unwrap(), "child-val");
    let g2 = w.enter_scope();
    assert_eq!(w.get_rid(key).unwrap(), "child-val");
    w.leave(g2);
    assert_eq!(w.get_rid(key).unwrap(), "child-val");
    w.leave(g1);
    assert_eq!(w.get_rid(key).unwrap(), "root-val");
}

#[test]
fn test_async_reentrant_safety() {
    let mut w = World::new();
    let key = unique_key("async_reentrant", "rid");
    w.register_rid(key);
    w.set_rid(key, "base");
    let snap = w.snapshot();
    w.with_snapshot(snap, |w| {
        assert_eq!(w.get_rid(key).unwrap(), "base");
        w.in_scope("", |w| {
            w.set_rid(key, "in-scope-async");
            assert_eq!(w.get_rid(key).unwrap(), "in-scope-async");
            w.in_scope("inner", |w| {
                assert_eq!(w.get_rid(key).unwrap(), "in-scope-async");
                w.set_rid(key, "deep");
                assert_eq!(w.get_rid(key).unwrap(), "deep");
            });
            assert_eq!(w.get_rid(key).unwrap(), "in-scope-async");
        });
        assert_eq!(w.get_rid(key).unwrap(), "base");
    });
}

// Forks

fn snapshot_of(w: &mut World, key: &'static str, text: &str) -> ContextSnapshot<Value> {
    let scope = w.enter_scope();
    w.set_rid(key, text);
    let snap = w.snapshot();
    w.leave(scope);
    snap
}

#[test]
fn test_fork_reads_parent_values() {
    let mut w = World::new();
    let key = unique_key("fork_read", "rid");
    w.register_rid(key);
    let snap = snapshot_of(&mut w, key, "parent-val");
    let result = w.with_snapshot(snap, |w| w.get_rid(key).unwrap());
    assert_eq!(result, "parent-val");
}

#[test]
fn test_fork_writes_are_isolated() {
    let mut w = World::new();
    let key = unique_key("fork_isolate", "rid");
    w.register_rid(key);
    let snap = snapshot_of(&mut w, key, "parent");
    w.with_snapshot(snap, |w| {
        w.set_rid(key, "child-override");
        assert_eq!(w.get_rid(key).unwrap(), "child-override");
    });
    let parent_val = w.get_rid(key).unwrap_or_default();
    assert_eq!(parent_val, String::default());
}

#[test]
fn test_fork_is_cheap_clone() {
    let mut w = World::new();
    let key = unique_key("fork_clone", "rid");
    w.register_rid(key);
    let snap = snapshot_of(&mut w, key, "shared");
    let snap2 = snap.clone();
    let r1 = w.with_snapshot(snap, |w| w.get_rid(key).unwrap());
    let r2 = w.with_snapshot(snap2, |w| w.get_rid(key).unwrap());
    assert_eq!(r1, "shared");
    assert_eq!(r2, "shared");
}

#[test]
fn test_fork_child_scopes_work() {
    let mut w = World::new();
    let key = unique_key("fork_scope", "rid");
    w.register_rid(key);
    let snap = snapshot_of(&mut w, key, "base");
    w.with_snapshot(snap, |w| {
        assert_eq!(w.get_rid(key).unwrap(), "base");
        w.in_scope("", |w| {
            w.set_rid(key, "inner");
            assert_eq!(w.get_rid(key).unwrap(), "inner");
        });
        assert_eq!(w.get_rid(key).unwrap(), "base");
    });
}

#[test]
fn test_spawn_with_fork_async() {
    let mut w = World::new();
    let key = unique_key("fork_spawn", "rid");
    w.register_rid(key);
    let snap = snapshot_of(&mut w, key, "for-spawn");
    let result = w.on_another_thread(|w| w.with_snapshot(snap, |w| w.get_rid(key).unwrap()));
    assert_eq!(result, "for-spawn");
}

#[test]
fn test_fork_empty_context() {
    let mut w = World::new();
    w.with_snapshot(ContextSnapshot::empty(), |w| {
        assert!(w.scope_chain().is_empty());
    });
}

#[test]
fn test_fork_scope_chain_preserved() {
    let mut w = World::new();
    let key = unique_key("fork_chain", "rid");
    w.register_rid(key);
    let snap = w.in_scope("parent-scope", |w| {
        w.set_rid(key, "chained");
        w.snapshot()
    });
    w.with_snapshot(snap, |w| {
        let chain = w.scope_chain();
        assert!(
            chain.contains(&"parent-scope".to_string()),
            "snapshot should preserve parent scope chain: {:?}",
            chain
        );
    });
}

// Merging

#[test]
fn test_merge_with_adds_values() {
    let mut w = World::new();
    let key = unique_key("merge_add", "rid");
    w.register_rid(key);
    let snap = snapshot_of(&mut w, key, "merged-val");
    let source = w.into_store(snap);
    w.clear();
    context::merge_with(&mut w.cell, source);
    assert_eq!(w.get_rid(key).unwrap(), "merged-val");
}

#[test]
fn test_merge_with_overwrites_existing() {
    let mut w = World::new();
    let key = unique_key("merge_overwrite", "rid");
    w.register_rid(key);
    w.set_rid(key, "original");
    let snap = snapshot_of(&mut w, key, "new-val");
    let source = w.into_store(snap);
    context::merge_with(&mut w.cell, source);
    assert_eq!(w.get_rid(key).unwrap(), "new-val");
}

// Values that stay in the process

#[test]
fn test_capture_excludes_local_only() {
    let mut w = World::new();
    let key_remote = unique_key("cap_local", "remote");
    let key_local = unique_key("cap_local", "local");
    w.register_rid(key_remote);
    w.register_rid_with(key_local, |o| o.local_only());
    w.set_rid(key_remote, "remote-val");
    w.set_rid(key_local, "local-val");
    let snap = w.snapshot();
    assert!(snap.get_value(key_remote).is_some());
    assert!(snap.get_value(key_local).is_none());
}

#[test]
fn test_fork_preserves_local_only() {
    let mut w = World::new();
    let key_local = unique_key("fork_local", "local");
    w.register_rid_with(key_local, |o| o.local_only());
    w.set_rid(key_local, "local-val");
    let forked = context::fork(&w.cell);
    let _g = context::attach_store(&mut w.cell, forked);
    assert_eq!(w.get_rid(key_local).unwrap(), "local-val");
}

#[test]
fn test_snapshot_to_store_filters_unknown_keys() {
    let mut w = World::new();
    let key = unique_key("snap_filter", "known");
    w.register_rid(key);
    let mut values: KeyMap<Arc<TypedValue<Value>>> = KeyMap::new();
    values.insert(key, typed::<RequestId>(rid("known-val")));
    values.insert("totally_unknown_key_xyz", typed::<RequestId>(rid("ghost")));
    let snap = ContextSnapshot::new(values, Vec::new());

    let all = w.into_store(snap).collect_values();
    assert!(all.contains_key(key));
    assert!(!all.contains_key("totally_unknown_key_xyz"));
}

#[test]
fn test_snapshot_to_store_filters_local_keys() {
    let mut w = World::new();
    let key_local = unique_key("snap_local_filter", "local");
    w.register_rid_with(key_local, |o| o.local_only());
    let mut values: KeyMap<Arc<TypedValue<Value>>> = KeyMap::new();
    values.insert(key_local, typed::<RequestId>(rid("local-ghost")));
    let snap = ContextSnapshot::new(values, Vec::new());

    let all = w.into_store(snap).collect_values();
    assert!(!all.contains_key(key_local));
}

// The ways to give a future a context

#[test]
fn test_future_ext_attach() {
    let mut w = World::new();
    let key = unique_key("fut_attach", "rid");
    w.register_rid(key);
    let snap = snapshot_of(&mut w, key, "attached");
    let mut future = ().attach(&w.global.registry(), snap);
    let result = w.poll(&mut future, |w| w.get_rid(key).unwrap());
    assert_eq!(result, "attached");
}

#[test]
fn test_future_ext_fork() {
    let mut w = World::new();
    let key = unique_key("fut_fork", "rid");
    w.register_rid(key);
    let snap = snapshot_of(&mut w, key, "parent-val");
    w.with_snapshot(snap, |w| {
        let mut future = ().fork(&w.cell);
        let result = w.poll(&mut future, |w| {
            let val = w.get_rid(key).unwrap();
            w.set_rid(key, "forked");
            val
        });
        assert_eq!(result, "parent-val");
        assert_eq!(w.get_rid(key).unwrap(), "parent-val");
    });
}

#[test]
fn test_future_ext_scope() {
    let mut w = World::new();
    let key = unique_key("fut_scope", "rid");
    w.register_rid(key);
    let snap = snapshot_of(&mut w, key, "base");
    w.with_snapshot(snap, |w| {
        let mut future = ().scope(&w.cell, &w.global.registry(), "my-scope");
        let chain = w.poll(&mut future, |w| {
            w.set_rid(key, "scoped");
            w.scope_chain()
        });
        assert!(chain.contains(&"my-scope".to_string()));
        assert_eq!(w.get_rid(key).unwrap(), "base");
    });
}

#[test]
fn test_future_ext_capture() {
    let mut w = World::new();
    let key = unique_key("fut_capture", "rid");
    w.register_rid(key);
    let snap = snapshot_of(&mut w, key, "original");
    w.with_snapshot(snap, |w| {
        let mut future = ().capture(&w.cell, &w.config);
        let result = w.poll(&mut future, |w| w.get_rid(key).unwrap());
        assert_eq!(result, "original");
    });
}

// Typed updates

#[test]
fn test_update_context_variable_modifies_value() {
    let mut w = World::new();
    let key = unique_key("update_mod", "uid");
    w.register_uid(key);
    w.set::<UserId>(key, Value::Uid(10));
    w.update::<UserId, _>(key, Value::Uid(0), self::add(5));
    assert_eq!(w.get_uid(key).unwrap(), 15);
}

#[test]
fn test_update_context_variable_uses_default_when_missing() {
    let mut w = World::new();
    let key = unique_key("update_default", "uid");
    w.register_uid(key);
    w.update::<UserId, _>(key, Value::Uid(0), self::add(42));
    assert_eq!(w.get_uid(key).unwrap(), 42);
}

// Clearing

#[test]
fn test_clear_removes_all_values() {
    let mut w = World::new();
    let key = unique_key("clear_all", "rid");
    w.register_rid(key);
    w.set_rid(key, "before-clear");
    assert!(w.get_rid(key).is_some());
    w.clear();
    assert_eq!(w.get_rid(key), None);
}

#[test]
fn test_clear_resets_scope_chain() {
    let mut w = World::new();
    let _g = w.enter_named_scope("before-clear");
    assert!(!w.scope_chain().is_empty());
    w.clear();
    assert!(w.scope_chain().is_empty());
}

// Attaching

#[test]
fn test_attach_guard_restores_on_drop() {
    let mut w = World::new();
    let key = unique_key("attach_restore", "rid");
    w.register_rid(key);
    w.set_rid(key, "outer");
    let snap = snapshot_of(&mut w, key, "inner");
    let guard = w.hold(snap);
    assert_eq!(w.get_rid(key).unwrap(), "inner");
    w.detach(guard);
    assert_eq!(w.get_rid(key).unwrap(), "outer");
}

#[test]
fn test_nested_attach_guards() {
    let mut w = World::new();
    let key = unique_key("attach_nested", "rid");
    w.register_rid(key);
    w.set_rid(key, "level-0");
    let snap1 = snapshot_of(&mut w, key, "level-1");
    let snap2 = snapshot_of(&mut w, key, "level-2");

    let g1 = w.hold(snap1);
    assert_eq!(w.get_rid(key).unwrap(), "level-1");
    let g2 = w.hold(snap2);
    assert_eq!(w.get_rid(key).unwrap(), "level-2");
    w.detach(g2);
    assert_eq!(w.get_rid(key).unwrap(), "level-1");
    w.detach(g1);
    assert_eq!(w.get_rid(key).unwrap(), "level-0");
}

// Snapshots as bytes

#[test]
fn test_snapshot_serialize_deserialize_roundtrip() {
    let mut w = World::new();
    let key = unique_key("snap_roundtrip", "rid");
    w.register_rid(key);
    w.set_rid(key, "wire-val");
    let _scope = w.enter_named_scope("wire-scope");

    let snap = w.snapshot();
    let bytes = snap.serialize(&w.global.registry(), &w.config).unwrap();
    let restored = ContextSnapshot::deserialize(&w.global.registry(), &bytes).unwrap();
    let _g = w.hold(restored);
    assert_eq!(w.get_rid(key).unwrap(), "wire-val");
    assert!(w.scope_chain().contains(&"wire-scope".to_string()));
}

#[test]
fn test_snapshot_deserialize_invalid_bytes() {
    let w = World::new();
    let result: Result<ContextSnapshot<Value>, ContextError> =
        ContextSnapshot::deserialize(&w.global.registry(), &[0xFF, 0xFF, 0xFF]);
    assert!(result.is_err());
}

#[test]
fn test_snapshot_serialize_excludes_local() {
    let mut w = World::new();
    let key_remote = unique_key("snap_ser_remote", "remote");
    let key_local = unique_key("snap_ser_local", "local");
    w.register_rid(key_remote);
    w.register_rid_with(key_local, |o| o.local_only());
    w.set_rid(key_remote, "remote");
    w.set_rid(key_local, "local");

    let snap = w.snapshot();
    let bytes = snap.serialize(&w.global.registry(), &w.config).unwrap();
    let restored = ContextSnapshot::deserialize(&w.global.registry(), &bytes).unwrap();
    let _g = w.hold(restored);
    assert_eq!(w.get_rid(key_remote).unwrap(), "remote");
    assert_eq!(w.get_rid(key_local), None);
}

// Threads

#[test]
fn test_context_is_thread_isolated() {
    let mut w = World::new();
    let key = unique_key("thread_iso", "rid");
    w.register_rid(key);
    w.set_rid(key, "main-thread");
    let other_val = w.on_another_thread(|w| {
        assert_eq!(w.get_rid(key), None);
        w.set_rid(key, "other-thread");
        w.get_rid(key).unwrap()
    });
    assert_eq!(other_val, "other-thread");
    assert_eq!(w.get_rid(key).unwrap(), "main-thread");
}

#[test]
fn test_snapshot_can_cross_threads() {
    let mut w = World::new();
    let key = unique_key("snap_cross_thread", "rid");
    w.register_rid(key);
    w.set_rid(key, "cross-thread");
    let snap = w.snapshot();
    let result = w.on_another_thread(|w| {
        let _g = w.hold(snap);
        w.get_rid(key).unwrap()
    });
    assert_eq!(result, "cross-thread");
}
