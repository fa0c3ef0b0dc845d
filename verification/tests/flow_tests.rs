//! Handing contexts on: forks, inheritance, futures, tasks and typed keys.

use std::any::TypeId;

use dcontext::async_ctx;
use dcontext::cell::{ContextCell, TaskSlot};
use dcontext::config::{max_scope_chain_len, set_max_scope_chain_len, Config};
use dcontext::context;
use dcontext::context_future::{with_context_future, ContextFuture};
use dcontext::context_key::ContextKey;
use dcontext::error::ContextError;
use dcontext::fork::{build_forked_store, create_fork_handle, fork, ForkHandle};
use dcontext::future_ext::ContextFutureExt;
use dcontext::helpers;
use dcontext::inheritance::{
    capture_async, capture_sync, swap_back, swap_in, ContextInheritance,
};
use dcontext::key_map::KeyMap;
use dcontext::registry::{RegistrationOptions, Registry, RegistryBuilder, RegistryMap};
use dcontext::scope::ScopeGuard;
use dcontext::store::ContextStore;
use dcontext::sync_ctx;
use dcontext::sync_storage;
use dcontext::sync_storage::Contexts;
use dcontext::text::{append_decimal, str_eq};
use dcontext::value::{ContextValue, TypeInfo, TypedValue};

struct Number;
struct Other;

#[derive(Clone, Debug, PartialEq)]
struct Value(u64);

impl ContextValue for Value {
    fn serialize_value(&self) -> Result<Vec<u8>, ContextError> {
        Ok(self.0.to_le_bytes().to_vec())
    }
}

type Enc = fn(&Value) -> Result<Vec<u8>, String>;
type Dec = fn(&[u8]) -> Result<Value, String>;
type Options = RegistrationOptions<Enc, Dec, ()>;

fn decode(bytes: &[u8]) -> Result<Value, String> {
    match <[u8; 8]>::try_from(bytes) {
        Ok(exact) => Ok(Value(u64::from_le_bytes(exact))),
        Err(_) => Err("not eight bytes".to_string()),
    }
}

fn number() -> TypeInfo {
    TypeInfo { id: TypeId::of::<Number>(), name: "Number" }
}

fn registered() -> RegistryMap<Enc, Dec, ()> {
    let mut b: RegistryBuilder<Enc, Dec, ()> = RegistryBuilder::new();
    b.register("n", number(), decode as Dec);
    b.register_with("cached", number(), decode as Dec, |o: Options| o.cached());
    b.register_local("here", number());
    b.into_map()
}

fn set(cell: &mut ContextCell<Value>, key: &'static str, value: u64) {
    context::set_context_variable(cell, key, TypeId::of::<Number>(), Value(value));
}

fn get(cell: &ContextCell<Value>, key: &str) -> Option<u64> {
    context::get_context_variable(cell, key, &TypeId::of::<Number>()).map(|held| held.value.0)
}

fn stored(store: &ContextStore<TypedValue<Value>>, key: &str) -> Option<u64> {
    store.get_value(key).map(|held| held.value.0)
}

#[test]
fn fork_handles_start_inside_the_active_scope() {
    let map = registered();
    let registry = Registry::new(&map);
    let mut cell = ContextCell::new();
    set(&mut cell, "n", 1);
    set(&mut cell, "cached", 2);
    let handle = fork(&cell, &registry);
    let copy = handle.clone();
    let mut store = build_forked_store(handle);
    assert_eq!(store.depth(), 2);
    assert_eq!(stored(&store, "n"), Some(1));
    assert!(store.holds_in_scope("cached"));
    assert!(!store.holds_in_scope("n"));

    let fresh = create_fork_handle(&store, &registry);
    assert_eq!(build_forked_store(fresh).depth(), 3);

    store.set_value("n", std::sync::Arc::new(TypedValue::new(TypeId::of::<Number>(), Value(9))));
    assert_eq!(stored(&build_forked_store(copy), "n"), Some(1));
    assert_eq!(get(&cell, "n"), Some(1));
}

#[test]
fn busy_contexts_are_left_alone() {
    let map = registered();
    let registry = Registry::new(&map);
    let mut cell: ContextCell<Value> = ContextCell::new();
    cell.store = None;
    set(&mut cell, "n", 1);
    assert!(cell.store.is_none());
    assert_eq!(get(&cell, "n"), None);
    assert!(context::scope_chain(&cell, &Config::new()).is_empty());
    let guard = context::push_scope(&mut cell, &registry, "never");
    assert_eq!(guard.expected_depth(), ScopeGuard::noop().expected_depth());
    context::leave_scope(&mut cell, guard.expected_depth());
    let empty: ForkHandle<Value> = fork(&cell, &registry);
    assert_eq!(build_forked_store(empty).depth(), 1);
    assert_eq!(sync_ctx::current_depth(&cell), None);
    assert!(sync_ctx::fork(&cell).is_none());
    assert!(cell.try_apply(|store| (store, 1)).is_none());
    assert!(swap_in(&mut cell, ContextStore::new()).is_none());
    assert!(cell.store.is_none());
}

#[test]
fn work_on_a_cell_gives_its_result() {
    let mut cell: ContextCell<Value> = ContextCell::new();
    let depth = cell.try_apply(|store| {
        let depth = store.depth();
        (store, depth)
    });
    assert_eq!(depth, Some(1));
    assert!(cell.store.is_some());
}

#[test]
fn helpers_fork_a_snapshot_of_scopes() {
    let map = registered();
    let mut cell: ContextCell<Value> = ContextCell::new();
    let _ = context::push_scope(&mut cell, &Registry::new(&map), "outer");
    set(&mut cell, "here", 4);
    let handle = helpers::fork(&cell);
    let store = handle.clone().into_store();
    assert_eq!(stored(&store, "here"), Some(4));
    assert_eq!(store.scope_chain(0), vec!["outer"]);
    assert_eq!(handle.into_store().depth(), 1);
}

#[test]
fn contexts_are_inherited_in_both_ways() {
    let map = registered();
    let registry = Registry::new(&map);
    let config = Config::new();
    let mut slot: TaskSlot<Value> = TaskSlot::with_store(ContextStore::new());
    let _ = async_ctx::push_scope(&mut slot, &registry, "task");
    async_ctx::set_context(&mut slot, "n", TypeId::of::<Number>(), Value(3));
    for mode in [ContextInheritance::Fork, ContextInheritance::Snapshot] {
        let store = capture_async(&slot, mode, &config);
        assert_eq!(store.depth(), 1);
        assert_eq!(stored(&store, "n"), Some(3));
        assert_eq!(store.scope_chain(0), vec!["task"]);
        assert_eq!(store.holds_in_scope("n"), mode == ContextInheritance::Snapshot);

        let nothing = capture_async(&TaskSlot::<Value>::none(), mode, &config);
        assert_eq!(stored(&nothing, "n"), None);
    }
    let mut cell: ContextCell<Value> = ContextCell::new();
    set(&mut cell, "n", 8);
    let store = capture_sync(&cell, ContextInheritance::default(), &config);
    assert_eq!(stored(&store, "n"), Some(8));

    // A worker thread takes it over for a while.
    let mut worker: ContextCell<Value> = ContextCell::new();
    set(&mut worker, "n", 1);
    let saved = swap_in(&mut worker, store);
    assert_eq!(get(&worker, "n"), Some(8));
    swap_back(&mut worker, saved);
    assert_eq!(get(&worker, "n"), Some(1));
}

#[test]
fn snapshot_futures_keep_what_steps_change() {
    let map = registered();
    let registry = Registry::new(&map);
    let config = Config::new();
    let mut cell: ContextCell<Value> = ContextCell::new();
    set(&mut cell, "n", 1);
    let mut future: ContextFuture<&str, Value> = with_context_future(&cell, &config, "work");
    set(&mut cell, "n", 5);

    let guard = future.begin_poll(&mut cell, &registry);
    assert_eq!(get(&cell, "n"), Some(1));
    set(&mut cell, "n", 2);
    future.end_poll(&mut cell, &config, guard);
    assert_eq!(get(&cell, "n"), Some(5));

    let guard = future.begin_poll(&mut cell, &registry);
    assert_eq!(get(&cell, "n"), Some(2));
    future.end_poll(&mut cell, &config, guard);
    assert_eq!(get(&cell, "n"), Some(5));
    assert_eq!(future.inner, "work");
}

#[test]
fn wrapped_futures_keep_their_store_between_polls() {
    let map = registered();
    let registry = Registry::new(&map);
    let mut cell: ContextCell<Value> = ContextCell::new();
    set(&mut cell, "n", 1);
    let mut future = ().capture_scope(&cell, &registry, &Config::new(), "job");
    let prev = future.begin_poll(&mut cell);
    assert_eq!(context::scope_chain(&cell, &Config::new()), vec!["job"]);
    set(&mut cell, "n", 2);
    future.end_poll(&mut cell, prev);
    assert_eq!(get(&cell, "n"), Some(1));
    assert!(context::scope_chain(&cell, &Config::new()).is_empty());

    // The next poll runs on another thread.
    let mut other: ContextCell<Value> = ContextCell::new();
    let prev = future.begin_poll(&mut other);
    assert_eq!(get(&other, "n"), Some(2));
    future.end_poll(&mut other, prev);
    assert_eq!(get(&other, "n"), None);
}

#[test]
fn captured_futures_read_everything() {
    let map = registered();
    let registry = Registry::new(&map);
    let config = Config::new();
    let mut cell: ContextCell<Value> = ContextCell::new();
    let _ = context::push_scope(&mut cell, &registry, "outer");
    set(&mut cell, "n", 1);
    set(&mut cell, "here", 2);
    set(&mut cell, "unknown", 3);
    let other = TypeId::of::<Other>();
    context::set_context_variable(&mut cell, "cached", other, Value(4));
    for mut future in
        [().capture(&cell, &config), ().capture_scope(&cell, &registry, &config, "job")]
    {
        let mut thread: ContextCell<Value> = ContextCell::new();
        let prev = future.begin_poll(&mut thread);
        assert_eq!(get(&thread, "n"), Some(1));
        assert_eq!(get(&thread, "here"), Some(2));
        assert_eq!(get(&thread, "unknown"), Some(3));
        let held = context::get_context_variable(&thread, "cached", &other);
        assert_eq!(held.map(|held| held.value.0), Some(4));
        assert_eq!(context::scope_chain(&thread, &config)[0], "outer");
        future.end_poll(&mut thread, prev);
        assert_eq!(get(&thread, "n"), None);
    }
}

#[test]
fn tasks_serialize_and_restore() {
    let map = registered();
    let registry = Registry::new(&map);
    let config = Config::new();
    let mut slot: TaskSlot<Value> = TaskSlot::with_store(ContextStore::new());
    let _ = async_ctx::push_scope(&mut slot, &registry, "sender");
    async_ctx::set_context(&mut slot, "n", TypeId::of::<Number>(), Value(77));
    async_ctx::set_context(&mut slot, "here", TypeId::of::<Number>(), Value(78));
    let bytes = async_ctx::serialize_context(&slot, &registry, &config).unwrap();

    let mut receiver: TaskSlot<Value> = TaskSlot::with_store(ContextStore::new());
    async_ctx::set_context(&mut receiver, "own", TypeId::of::<Number>(), Value(1));
    let guard = async_ctx::deserialize_context(&mut receiver, &registry, &bytes).unwrap();
    let read = |slot: &TaskSlot<Value>, key: &str| {
        async_ctx::get_raw_value(slot, key).map(|held| held.value.0)
    };
    assert_eq!(read(&receiver, "n"), Some(77));
    assert_eq!(read(&receiver, "here"), None);
    assert_eq!(read(&receiver, "own"), None);
    assert_eq!(async_ctx::scope_chain(&receiver, &config), vec!["sender"]);
    async_ctx::pop_scope(&mut receiver, guard.expected_depth());
    assert_eq!(read(&receiver, "n"), None);
    assert_eq!(read(&receiver, "own"), Some(1));
    assert!(async_ctx::scope_chain(&receiver, &config).is_empty());

    let err = async_ctx::deserialize_context(&mut receiver, &registry, &[1, 2]).err().unwrap();
    assert!(matches!(err, ContextError::DeserializationFailed(_)));
    assert_eq!(async_ctx::current_depth(&receiver), Some(1));
}

#[test]
fn restored_contexts_show_no_cached_values_of_the_outside() {
    let map = registered();
    let registry = Registry::new(&map);
    let config = Config::new();
    let mut sender: TaskSlot<Value> = TaskSlot::with_store(ContextStore::new());
    async_ctx::set_context(&mut sender, "n", TypeId::of::<Number>(), Value(77));
    let bytes = async_ctx::serialize_context(&sender, &registry, &config).unwrap();

    let mut receiver: TaskSlot<Value> = TaskSlot::with_store(ContextStore::new());
    let _ = async_ctx::push_scope(&mut receiver, &registry, "own");
    async_ctx::set_context(&mut receiver, "cached", TypeId::of::<Number>(), Value(1));
    async_ctx::set_context(&mut receiver, "here", TypeId::of::<Number>(), Value(2));
    let read = |slot: &TaskSlot<Value>, key: &str| {
        async_ctx::get_raw_value(slot, key).map(|held| held.value.0)
    };
    let guard = async_ctx::deserialize_context(&mut receiver, &registry, &bytes).unwrap();
    assert_eq!(read(&receiver, "n"), Some(77));
    assert_eq!(read(&receiver, "cached"), None);
    assert_eq!(read(&receiver, "here"), None);
    assert!(async_ctx::scope_chain(&receiver, &config).is_empty());
    async_ctx::pop_scope(&mut receiver, guard.expected_depth());
    assert_eq!(read(&receiver, "n"), None);
    assert_eq!(read(&receiver, "cached"), Some(1));
    assert_eq!(read(&receiver, "here"), Some(2));
    assert_eq!(async_ctx::scope_chain(&receiver, &config), vec!["own"]);
}

#[test]
fn contexts_are_forked_again_and_again() {
    let mut cell: ContextCell<Value> = ContextCell::new();
    set(&mut cell, "n", 5);
    let first = context::fork(&cell);
    let first = context::attach_store(&mut cell, first);
    set(&mut cell, "here", 6);
    let second = context::fork(&cell);
    let second = context::attach_store(&mut cell, second);
    assert_eq!(get(&cell, "n"), Some(5));
    assert_eq!(get(&cell, "here"), Some(6));
    second.detach(&mut cell);
    first.detach(&mut cell);
    assert_eq!(get(&cell, "n"), Some(5));
    assert_eq!(get(&cell, "here"), None);

    let slot: TaskSlot<Value> = TaskSlot { cell: Some(cell) };
    let config = Config::new();
    let once = capture_async(&slot, ContextInheritance::Fork, &config);
    let slot = TaskSlot::with_store(once);
    let twice = capture_async(&slot, ContextInheritance::Fork, &config);
    assert_eq!(stored(&twice, "n"), Some(5));
}

#[test]
fn attached_snapshots_bring_their_names() {
    let map = registered();
    let registry = Registry::new(&map);
    let config = Config::new();
    let mut sender: TaskSlot<Value> = TaskSlot::with_store(ContextStore::new());
    let _ = async_ctx::push_scope(&mut sender, &registry, "a");
    let _ = async_ctx::push_scope(&mut sender, &registry, "b");
    async_ctx::set_context(&mut sender, "n", TypeId::of::<Number>(), Value(3));
    let snapshot = async_ctx::snapshot(&sender, &config);

    let mut receiver: TaskSlot<Value> = TaskSlot::with_store(ContextStore::new());
    let _ = async_ctx::push_scope(&mut receiver, &registry, "own");
    async_ctx::set_context(&mut receiver, "here", TypeId::of::<Number>(), Value(4));
    let guard = async_ctx::attach(&mut receiver, &registry, snapshot);
    let read = |slot: &TaskSlot<Value>, key: &str| {
        async_ctx::get_raw_value(slot, key).map(|held| held.value.0)
    };
    assert_eq!(async_ctx::scope_chain(&receiver, &config), vec!["a", "b"]);
    assert_eq!(read(&receiver, "n"), Some(3));
    assert_eq!(read(&receiver, "here"), Some(4));
    async_ctx::pop_scope(&mut receiver, guard.expected_depth());
    assert_eq!(async_ctx::scope_chain(&receiver, &config), vec!["own"]);
    assert_eq!(read(&receiver, "n"), None);
}

#[test]
fn nothing_of_a_scope_is_left_behind() {
    let map = registered();
    let registry = Registry::new(&map);
    let mut contexts: Contexts<Value> = Contexts::new();
    if let Some(cell) = &mut contexts.thread {
        set(cell, "n", 1);
    }
    assert_eq!(sync_storage::current_depth(&contexts), Some(1));
    let (contexts, seen) = sync_storage::scope(contexts, &registry, |mut inside: Contexts<Value>| {
        let depth = sync_storage::current_depth(&inside);
        if let Some(cell) = &mut inside.thread {
            set(cell, "n", 2);
            let _ = context::push_scope(cell, &Registry::<Enc, Dec, ()>::empty(), "deeper");
        }
        (inside, depth)
    });
    assert_eq!(seen, Some(2));
    assert_eq!(sync_storage::current_depth(&contexts), Some(1));
    assert_eq!(contexts.thread.as_ref().and_then(|cell| get(cell, "n")), Some(1));
    let busy: Contexts<Value> = Contexts { thread: None, ..contexts };
    assert_eq!(sync_storage::current_depth(&busy), None);
}

#[test]
fn tasks_answer_without_a_context() {
    let map = registered();
    let registry = Registry::new(&map);
    let mut slot: TaskSlot<Value> = TaskSlot::none();
    assert!(!async_ctx::is_active(&slot));
    assert!(!async_ctx::has_context(&slot));
    assert!(async_ctx::try_push_scope(&mut slot, &registry, "x").is_none());
    assert_eq!(async_ctx::current_depth(&slot), None);
    assert!(async_ctx::fork(&slot).is_none());
    assert!(async_ctx::with_context_value(&slot, "n", |held| held.value.0).is_none());

    let mut slot: TaskSlot<Value> = TaskSlot::with_store(ContextStore::new());
    assert!(async_ctx::is_active(&slot));
    async_ctx::set_context(&mut slot, "n", TypeId::of::<Number>(), Value(6));
    let guard = async_ctx::try_push_scope(&mut slot, &registry, "x").unwrap();
    async_ctx::set_scope_barrier(&mut slot);
    assert!(async_ctx::get_raw_value(&slot, "n").is_none());
    async_ctx::pop_scope(&mut slot, guard.expected_depth());
    assert_eq!(async_ctx::with_context_value(&slot, "n", |held| held.value.0), Some(6));
    async_ctx::update_context(
        &mut slot,
        "n",
        TypeId::of::<Number>(),
        Value(0),
        |_slot, old| Value(old.0 + 1),
    );
    assert_eq!(async_ctx::with_context_value(&slot, "n", |held| held.value.0), Some(7));
}

#[test]
fn tasks_come_before_threads_unless_forced() {
    let map = registered();
    let registry = Registry::new(&map);
    let value = |n: u64| std::sync::Arc::new(TypedValue::new(TypeId::of::<Number>(), Value(n)));
    let read = |contexts: &Contexts<Value>| {
        sync_storage::get_value(contexts, "n").map(|held| held.value.0)
    };
    let mut contexts: Contexts<Value> = Contexts::new();
    sync_storage::set_value(&mut contexts, "n", value(1));
    contexts.task = TaskSlot::with_store(ContextStore::new());
    assert_eq!(read(&contexts), None);
    sync_storage::set_value(&mut contexts, "n", value(2));
    assert_eq!(read(&contexts), Some(2));

    let (contexts, seen) = sync_storage::force_thread_local(contexts, |contexts| {
        let seen = sync_storage::get_value(&contexts, "n").map(|held| held.value.0);
        (contexts, seen)
    });
    assert_eq!(seen, Some(1));
    assert_eq!(read(&contexts), Some(2));

    let (mut contexts, chain) = sync_storage::scope(contexts, &registry, |contexts| {
        let mut contexts = contexts;
        let guard = sync_storage::enter_named_scope(&mut contexts, &registry, "in".to_string());
        sync_storage::set_value(&mut contexts, "n", value(3));
        let chain = sync_storage::scope_chain(&contexts, &Config::new());
        sync_storage::leave_scope(&mut contexts, guard.expected_depth());
        (contexts, chain)
    });
    assert_eq!(chain, vec!["in"]);
    assert_eq!(read(&contexts), Some(2));

    let guard = sync_storage::enter_scope(&mut contexts, &registry);
    sync_storage::set_remote_chain(&mut contexts, vec!["far".to_string()]);
    assert_eq!(sync_storage::scope_chain(&contexts, &Config::new()), vec!["far"]);
    assert!(sync_storage::do_fork(&contexts, &registry).is_some());
    assert_eq!(sync_storage::collect_values(&contexts).len(), 1);
    sync_storage::leave_scope(&mut contexts, guard.expected_depth());
    assert!(sync_storage::scope_chain(&contexts, &Config::new()).is_empty());

    contexts.thread = None;
    sync_storage::begin_force(&mut contexts);
    assert_eq!(read(&contexts), None);
    sync_storage::end_force(&mut contexts);
    assert_eq!(read(&contexts), Some(2));
}

#[test]
fn typed_keys_check_the_registry() {
    let key = ContextKey::new("typed", number());
    let mut b: RegistryBuilder<Enc, Dec, ()> = RegistryBuilder::new();
    let empty: Registry<'_, Enc, Dec, ()> = Registry::empty();
    let mut cell: ContextCell<Value> = ContextCell::new();
    let err = key.try_set(&mut cell, &empty, Value(1)).unwrap_err();
    assert!(matches!(err, ContextError::NotRegistered(_)));
    assert!(key.try_get(&cell, &empty).is_err());

    key.register_on(&mut b, decode as Dec);
    assert!(key.try_register_on(&mut b, decode as Dec).is_ok());
    let wrong = ContextKey::new("typed", TypeInfo { id: TypeId::of::<Other>(), name: "Other" });
    assert!(matches!(
        wrong.try_register_on(&mut b, decode as Dec),
        Err(ContextError::AlreadyRegistered(_))
    ));
    let map = b.into_map();
    let registry = Registry::new(&map);
    assert!(key.try_get(&cell, &registry).unwrap().is_none());
    key.try_set(&mut cell, &registry, Value(2)).unwrap();
    assert_eq!(key.try_get(&cell, &registry).unwrap().unwrap().value, Value(2));
    let err = wrong.try_get(&cell, &registry).err().unwrap();
    assert_eq!(err.message(), "type mismatch for key 'typed': expected Number, got Other");
    assert!(wrong.get(&cell).is_none());
}

#[test]
fn chain_limit_comes_from_the_configuration() {
    let map = registered();
    let registry = Registry::new(&map);
    let mut cell: ContextCell<Value> = ContextCell::new();
    for name in ["a", "b", "c"] {
        let _ = context::push_scope(&mut cell, &registry, name);
    }
    let mut config = Config::new();
    assert_eq!(max_scope_chain_len(&config), 64);
    set_max_scope_chain_len(&mut config, 2);
    assert_eq!(context::scope_chain(&cell, &config), vec!["b", "c"]);
    set_max_scope_chain_len(&mut config, 0);
    assert_eq!(context::scope_chain(&cell, &config), vec!["a", "b", "c"]);
}

#[test]
fn maps_keep_one_value_per_key() {
    let mut values: KeyMap<u64> = KeyMap::new();
    assert!(values.is_empty());
    assert_eq!(values.insert("a", 1), None);
    assert_eq!(values.insert("a", 2), Some(1));
    values.insert_if_absent("a", 3);
    values.insert_if_absent("b", 4);
    assert_eq!(values.get("a"), Some(&2));
    assert_eq!(values.remove("a"), Some(2));
    assert_eq!(values.remove("a"), None);
    assert_eq!(values.len(), 1);
    let mut other: KeyMap<u64> = KeyMap::new();
    other.insert("b", 9);
    values.absorb(other);
    assert_eq!(values.get("b"), Some(&9));
}

#[test]
fn texts_are_compared_and_numbers_written() {
    assert!(str_eq("context", "context"));
    assert!(!str_eq("context", "contexts"));
    assert!(!str_eq("a", "b"));
    let mut out = "n=".to_string();
    append_decimal(&mut out, 0);
    append_decimal(&mut out, 9070);
    assert_eq!(out, "n=09070");
}
