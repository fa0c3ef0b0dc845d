//! The context of a task.
//!
//! The functions here work on the cell of the running task and never on that of
//! the thread. Without a task, reads give defaults and writes do nothing.

use std::any::TypeId;
use std::sync::Arc;
use vstd::prelude::*;

use crate::cell::TaskSlot;
use crate::config::Config;
use crate::context;
use crate::error::ContextError;
use crate::registry::Registry;
use crate::scope::ScopeGuard;
use crate::snapshot::{deserialize_to_snapshot, ContextSnapshot, SnapshotView};
use crate::store::{ContextStore, StoreView};
use crate::sync_ctx;
use crate::value::{ContextValue, TypedValue};

verus! {

/// Enter a named scope. Without a store the guard does nothing.
pub fn push_scope<V, E, D, M>(
    slot: &mut TaskSlot<V>,
    registry: &Registry<'_, E, D, M>,
    name: &str,
) -> (r: ScopeGuard)
    requires
        context::can_enter(crate::cell::task_store(old(slot)@)),
    ensures
        final(slot)@ == crate::cell::with_task_store(
            old(slot)@,
            context::entered(
                crate::cell::task_store(old(slot)@),
                crate::registry::cached_set(registry@),
                Some(name@),
            ),
        ),
        r.depth() == context::entered_depth(crate::cell::task_store(old(slot)@)),
{
    match try_push_scope(slot, registry, name) {
        Some(guard) => guard,
        None => ScopeGuard::noop(),
    }
}

/// Enter a named scope. Gives `None` without a store.
pub fn try_push_scope<V, E, D, M>(
    slot: &mut TaskSlot<V>,
    registry: &Registry<'_, E, D, M>,
    name: &str,
) -> (r: Option<ScopeGuard>)
    requires
        context::can_enter(crate::cell::task_store(old(slot)@)),
    ensures
        final(slot)@ == crate::cell::with_task_store(
            old(slot)@,
            context::entered(
                crate::cell::task_store(old(slot)@),
                crate::registry::cached_set(registry@),
                Some(name@),
            ),
        ),
        match crate::cell::task_store(old(slot)@) {
            Some(store) => r is Some && r->0.depth() == store.current.depth + 1,
            None => r is None,
        },
{
    match &mut slot.cell {
        Some(cell) => if cell.store.is_some() {
            Some(context::push_scope(cell, registry, name))
        } else {
            None
        },
        None => None,
    }
}

/// Leave the scope at a depth.
pub fn pop_scope<V>(slot: &mut TaskSlot<V>, expected_depth: usize)
    ensures
        final(slot)@ == crate::cell::with_task_store(
            old(slot)@,
            match crate::cell::task_store(old(slot)@) {
                Some(store) => Some(store.pop(expected_depth as nat)),
                None => None,
            },
        ),
{
    match &mut slot.cell {
        Some(cell) => {
            match cell.store.take() {
                Some(store) => {
                    let mut store = store;
                    let _garbage = store.pop_scope(expected_depth);
                    cell.store = Some(store);
                },
                None => {},
            }
        },
        None => {},
    }
}

/// Hide the scopes around the active one, until it is left.
pub fn set_scope_barrier<V>(slot: &mut TaskSlot<V>)
    ensures
        final(slot)@ == crate::cell::with_task_store(
            old(slot)@,
            match crate::cell::task_store(old(slot)@) {
                Some(store) => Some(store.with_barrier()),
                None => None,
            },
        ),
{
    match &mut slot.cell {
        Some(cell) => {
            match cell.store.take() {
                Some(store) => {
                    let mut store = store;
                    store.set_scope_barrier();
                    cell.store = Some(store);
                },
                None => {},
            }
        },
        None => {},
    }
}

/// Whether there is a store to work on.
pub fn is_active<V>(slot: &TaskSlot<V>) -> (r: bool)
    ensures
        r == (crate::cell::task_store(slot@) is Some),
{
    has_context(slot)
}

/// The depth of the active scope.
pub fn current_depth<V>(slot: &TaskSlot<V>) -> (r: Option<usize>)
    ensures
        match crate::cell::task_store(slot@) {
            Some(store) => r is Some && r->0 == store.current.depth,
            None => r is None,
        },
{
    match &slot.cell {
        Some(cell) => match &cell.store {
            Some(store) => Some(store.depth()),
            None => None,
        },
        None => None,
    }
}

/// The names that lead to the active scope.
pub fn scope_chain<V>(slot: &TaskSlot<V>, config: &Config) -> (r: Vec<String>)
    ensures
        crate::text::views(r@) == context::names_in(crate::cell::task_store(slot@), *config),
{
    match &slot.cell {
        Some(cell) => context::scope_chain(cell, config),
        None => {
            let none: Vec<String> = Vec::new();
            assert(crate::text::views(none@) =~= Seq::<Seq<char>>::empty());
            none
        },
    }
}

/// Set a value of a type in the active scope.
pub fn set_context<V>(slot: &mut TaskSlot<V>, key: &'static str, type_id: TypeId, value: V)
    ensures
        exists|stored: Arc<TypedValue<V>>|
            *stored == (TypedValue { type_id, value }) && final(slot)@
                == crate::cell::with_task_store(
                old(slot)@,
                #[trigger] context::with_value(
                    crate::cell::task_store(old(slot)@),
                    key@,
                    stored,
                ),
            ),
{
    let stored = Arc::new(TypedValue { type_id, value });
    set_raw_value(slot, key, stored);
}

/// The value of a key, where it has one of the type asked for.
pub fn get_context<V>(slot: &TaskSlot<V>, key: &str, type_id: &TypeId) -> (r: Option<
    Arc<TypedValue<V>>,
>)
    ensures
        r == context::of_type(
            context::value_in(crate::cell::task_store(slot@), key@),
            *type_id,
        ),
{
    match &slot.cell {
        Some(cell) => context::get_context_variable(cell, key, type_id),
        None => None,
    }
}

/// Read a value, change it and write it back. A key without a value starts from
/// the default.
pub fn update_context<V: Clone, F: FnOnce(&TaskSlot<V>, V) -> V>(
    slot: &mut TaskSlot<V>,
    key: &'static str,
    type_id: TypeId,
    default_value: V,
    f: F,
)
    requires
        forall|value: V| f.requires((&*old(slot), value)),
    ensures
        exists|before: V, stored: Arc<TypedValue<V>>|
            #![trigger f.ensures((&*old(slot), before), stored.value)]
            {
                &&& context::update_starts_from(
                    crate::cell::task_store(old(slot)@),
                    key@,
                    type_id,
                    default_value,
                    before,
                )
                &&& f.ensures((&*old(slot), before), stored.value)
                &&& stored.type_id == type_id
                &&& final(slot)@ == crate::cell::with_task_store(
                    old(slot)@,
                    context::with_value(crate::cell::task_store(old(slot)@), key@, stored),
                )
            },
{
    let value = match &slot.cell {
        Some(cell) => context::value_or_default(cell, key, &type_id, default_value),
        None => default_value,
    };
    let ghost before = value;
    let changed = f(&*slot, value);
    let stored = Arc::new(TypedValue { type_id, value: changed });
    assert(f.ensures((&*old(slot), before), stored.value));
    set_raw_value(slot, key, stored);
}

/// Set a value in the active scope, as it is stored.
pub fn set_raw_value<V>(slot: &mut TaskSlot<V>, key: &'static str, value: Arc<TypedValue<V>>)
    ensures
        final(slot)@ == crate::cell::with_task_store(
            old(slot)@,
            context::with_value(crate::cell::task_store(old(slot)@), key@, value),
        ),
{
    match &mut slot.cell {
        Some(cell) => context::set_raw_value(cell, key, value),
        None => {},
    }
}

/// Install names that came from elsewhere at the active scope.
pub fn set_remote_chain<V>(slot: &mut TaskSlot<V>, chain: Vec<String>)
    ensures
        final(slot)@ == crate::cell::with_task_store(
            old(slot)@,
            match crate::cell::task_store(old(slot)@) {
                Some(store) => Some(store.with_remote_chain(crate::text::views(chain@))),
                None => None,
            },
        ),
{
    match &mut slot.cell {
        Some(cell) => {
            match cell.store.take() {
                Some(store) => {
                    let mut store = store;
                    store.set_remote_chain(chain);
                    cell.store = Some(store);
                },
                None => {},
            }
        },
        None => {},
    }
}

/// The value of a key, as it is stored.
pub fn get_raw_value<V>(slot: &TaskSlot<V>, key: &str) -> (r: Option<Arc<TypedValue<V>>>)
    ensures
        r == context::value_in(crate::cell::task_store(slot@), key@),
{
    match &slot.cell {
        Some(cell) => context::get_raw_value(cell, key),
        None => None,
    }
}

/// Look at the value of a key. Gives `None` where it has none.
pub fn with_context_value<V, R, F: FnOnce(&TypedValue<V>) -> R>(
    slot: &TaskSlot<V>,
    key: &str,
    f: F,
) -> (r: Option<R>)
    requires
        context::value_in(crate::cell::task_store(slot@), key@) matches Some(value) ==> f.requires(
            (&*value,),
        ),
    ensures
        match context::value_in(crate::cell::task_store(slot@), key@) {
            Some(value) => r is Some && f.ensures((&*value,), r->0),
            None => r is None,
        },
{
    match get_raw_value(slot, key) {
        Some(value) => Some(f(&*value)),
        None => None,
    }
}

/// A snapshot of the context, with all its values.
pub fn snapshot<V>(slot: &TaskSlot<V>, config: &Config) -> (r: ContextSnapshot<V>)
    ensures
        r@ == sync_ctx::whole_snapshot(crate::cell::task_store(slot@), *config),
{
    match &slot.cell {
        Some(cell) => sync_ctx::snapshot(cell, config),
        None => ContextSnapshot::empty(),
    }
}

/// Enter a scope and install a snapshot there. The guard that comes back leaves
/// the scope; without a store it does nothing.
pub fn attach<V, E, D, M>(
    slot: &mut TaskSlot<V>,
    registry: &Registry<'_, E, D, M>,
    snapshot: ContextSnapshot<V>,
) -> (r: ScopeGuard)
    requires
        context::can_enter(crate::cell::task_store(old(slot)@)),
    ensures
        final(slot)@ == crate::cell::with_task_store(
            old(slot)@,
            match crate::cell::task_store(old(slot)@) {
                Some(store) => Some(
                    context::installed(
                        store,
                        crate::registry::cached_set(registry@),
                        Some(""@),
                        snapshot@,
                    ),
                ),
                None => None,
            },
        ),
        r.depth() == context::entered_depth(crate::cell::task_store(old(slot)@)),
{
    match &mut slot.cell {
        Some(cell) => context::install_snapshot(cell, registry, Some("".to_owned()), &snapshot),
        None => ScopeGuard::noop(),
    }
}

/// The bytes of the context.
pub fn serialize_context<V, E, D, M>(
    slot: &TaskSlot<V>,
    registry: &Registry<'_, E, D, M>,
    config: &Config,
) -> (r: Result<Vec<u8>, ContextError>) where
    V: ContextValue,
    E: Fn(&V) -> Result<Vec<u8>, String>,

    requires
        crate::wire::encoders_ready::<V, E, D, M>(registry@),
    ensures
        ({
            let shown = sync_ctx::whole_snapshot(crate::cell::task_store(slot@), *config);
            crate::wire::serializes(
                registry@,
                *config,
                shown.values,
                shown.scope_chain,
                crate::wire::bytes_outcome(r),
            )
        }),
{
    snapshot(slot, config).serialize(registry, config)
}

/// Restore a snapshot in a new scope that hides the scopes around it.
pub fn restore_in_scope<V>(slot: &mut TaskSlot<V>, snapshot: ContextSnapshot<V>) -> (r: ScopeGuard)
    requires
        context::can_enter(crate::cell::task_store(old(slot)@)),
    ensures
        final(slot)@ == crate::cell::with_task_store(
            old(slot)@,
            match crate::cell::task_store(old(slot)@) {
                Some(store) => Some(context::replaced_by(store, snapshot@)),
                None => None,
            },
        ),
        r.depth() == context::entered_depth(crate::cell::task_store(old(slot)@)),
{
    match &mut slot.cell {
        Some(cell) => context::replace_in_scope(cell, snapshot),
        None => ScopeGuard::noop(),
    }
}

/// Restore a context from bytes, in a new scope that hides the scopes around
/// it. Bytes that cannot be restored leave everything as it is.
pub fn deserialize_context<V, E, D, M>(
    slot: &mut TaskSlot<V>,
    registry: &Registry<'_, E, D, M>,
    bytes: &[u8],
) -> (r: Result<ScopeGuard, ContextError>) where D: Fn(&[u8]) -> Result<V, String>
    requires
        context::can_enter(crate::cell::task_store(old(slot)@)),
        crate::wire::decoders_ready::<V, E, D, M>(registry@),
    ensures
        r matches Ok(guard) ==> guard.depth() == context::entered_depth(
            crate::cell::task_store(old(slot)@),
        ) && exists|snapshot: SnapshotView<V>| #[trigger]
            crate::snapshot::deserializes(registry@, bytes@, snapshot) && final(slot)@
                == crate::cell::with_task_store(
                old(slot)@,
                match crate::cell::task_store(old(slot)@) {
                    Some(store) => Some(context::replaced_by(store, snapshot)),
                    None => None,
                },
            ),
        r matches Err(error) ==> crate::snapshot::rejects::<V, E, D, M>(
            registry@,
            bytes@,
            error@,
        ) && final(slot)@ == old(slot)@,
{
    match deserialize_to_snapshot(registry, bytes) {
        Ok(snapshot) => {
            let ghost shown = snapshot@;
            assert(crate::snapshot::deserializes(registry@, bytes@, shown));
            Ok(restore_in_scope(slot, snapshot))
        },
        Err(error) => Err(error),
    }
}

/// Whether a store is there. It is neither taken nor changed.
pub fn has_context<V>(slot: &TaskSlot<V>) -> (r: bool)
    ensures
        r == (crate::cell::task_store(slot@) is Some),
{
    match &slot.cell {
        Some(cell) => cell.store.is_some(),
        None => false,
    }
}

/// A store that reads through to this context.
pub fn fork<V>(slot: &TaskSlot<V>) -> (r: Option<ContextStore<TypedValue<V>>>)
    ensures
        match crate::cell::task_store(slot@) {
            Some(store) => r is Some && r->0@ == store.fork(),
            None => r is None,
        },
{
    match &slot.cell {
        Some(cell) => sync_ctx::fork(cell),
        None => None,
    }
}

} // verus!
