//! The context of a thread.
//!
//! The functions here work on the cell of the thread and on nothing else.

use std::any::TypeId;
use std::sync::Arc;
use vstd::prelude::*;

use crate::cell::ContextCell;
use crate::config::Config;
use crate::context;
use crate::registry::Registry;
use crate::scope::ScopeGuard;
use crate::snapshot::{ContextSnapshot, SnapshotView};
use crate::store::{ContextStore, StoreView};
use crate::value::TypedValue;

verus! {

/// Everything that a store shows, as a snapshot.
pub open spec fn whole_snapshot<V>(
    cell: Option<StoreView<TypedValue<V>>>,
    config: Config,
) -> SnapshotView<V> {
    match cell {
        Some(store) => SnapshotView {
            values: store.effective(),
            scope_chain: store.scope_chain(config.max_scope_chain_len as nat),
        },
        None => SnapshotView::empty(),
    }
}

/// Enter a named scope. The guard that comes back leaves it.
pub fn push_scope<V, E, D, M>(
    cell: &mut ContextCell<V>,
    registry: &Registry<'_, E, D, M>,
    name: &str,
) -> (r: ScopeGuard)
    requires
        context::can_enter(old(cell)@),
    ensures
        final(cell)@ == context::entered(
            old(cell)@,
            crate::registry::cached_set(registry@),
            Some(name@),
        ),
        r.depth() == context::entered_depth(old(cell)@),
{
    context::push_scope(cell, registry, name)
}

/// Enter a scope without a name. The guard that comes back leaves it.
pub fn enter_scope<V, E, D, M>(
    cell: &mut ContextCell<V>,
    registry: &Registry<'_, E, D, M>,
) -> (r: ScopeGuard)
    requires
        context::can_enter(old(cell)@),
    ensures
        final(cell)@ == context::entered(
            old(cell)@,
            crate::registry::cached_set(registry@),
            None,
        ),
        r.depth() == context::entered_depth(old(cell)@),
{
    context::enter(cell, registry, None)
}

/// The depth of the active scope; there is none while the store is in use.
pub fn current_depth<V>(cell: &ContextCell<V>) -> (r: Option<usize>)
    ensures
        match cell@ {
            Some(store) => r is Some && r->0 == store.current.depth,
            None => r is None,
        },
{
    match &cell.store {
        Some(store) => Some(store.depth()),
        None => None,
    }
}

/// Leave the scope at a depth. The depth of a guard that does nothing is passed
/// over.
pub fn pop_scope<V>(cell: &mut ContextCell<V>, expected_depth: usize)
    ensures
        final(cell)@ == context::left(old(cell)@, expected_depth),
{
    context::leave_scope(cell, expected_depth)
}

/// The names that lead to the active scope.
pub fn scope_chain<V>(cell: &ContextCell<V>, config: &Config) -> (r: Vec<String>)
    ensures
        crate::text::views(r@) == context::names_in(cell@, *config),
{
    context::scope_chain(cell, config)
}

/// Set a value of a type in the active scope.
pub fn set_context<V>(cell: &mut ContextCell<V>, key: &'static str, type_id: TypeId, value: V)
    ensures
        exists|stored: Arc<TypedValue<V>>|
            *stored == (TypedValue { type_id, value }) && final(cell)@
                == #[trigger] context::with_value(old(cell)@, key@, stored),
{
    context::set_context_variable(cell, key, type_id, value)
}

/// The value of a key, where it has one of the type asked for.
pub fn get_context<V>(cell: &ContextCell<V>, key: &str, type_id: &TypeId) -> (r: Option<
    Arc<TypedValue<V>>,
>)
    ensures
        r == context::of_type(context::value_in(cell@, key@), *type_id),
{
    context::get_context_variable(cell, key, type_id)
}

/// Read a value, change it and write it back. A key without a value starts from
/// the default.
pub fn update_context<V: Clone, F: FnOnce(&ContextCell<V>, V) -> V>(
    cell: &mut ContextCell<V>,
    key: &'static str,
    type_id: TypeId,
    default_value: V,
    f: F,
)
    requires
        forall|value: V| f.requires((&*old(cell), value)),
    ensures
        exists|before: V, stored: Arc<TypedValue<V>>|
            #![trigger f.ensures((&*old(cell), before), stored.value)]
            {
                &&& context::update_starts_from(old(cell)@, key@, type_id, default_value, before)
                &&& f.ensures((&*old(cell), before), stored.value)
                &&& stored.type_id == type_id
                &&& final(cell)@ == context::with_value(old(cell)@, key@, stored)
            },
{
    context::update_context_variable(cell, key, type_id, default_value, f)
}

/// Set a value in the active scope, as it is stored.
pub fn set_raw_value<V>(cell: &mut ContextCell<V>, key: &'static str, value: Arc<TypedValue<V>>)
    ensures
        final(cell)@ == context::with_value(old(cell)@, key@, value),
{
    context::set_raw_value(cell, key, value)
}

/// The value of a key, as it is stored.
pub fn get_raw_value<V>(cell: &ContextCell<V>, key: &str) -> (r: Option<Arc<TypedValue<V>>>)
    ensures
        r == context::value_in(cell@, key@),
{
    context::get_raw_value(cell, key)
}

/// Look at the value of a key. Gives `None` where it has none.
pub fn with_context_value<V, R, F: FnOnce(&TypedValue<V>) -> R>(
    cell: &ContextCell<V>,
    key: &str,
    f: F,
) -> (r: Option<R>)
    requires
        context::value_in(cell@, key@) matches Some(value) ==> f.requires((&*value,)),
    ensures
        match context::value_in(cell@, key@) {
            Some(value) => r is Some && f.ensures((&*value,), r->0),
            None => r is None,
        },
{
    match get_raw_value(cell, key) {
        Some(value) => Some(f(&*value)),
        None => None,
    }
}

/// A snapshot of the context, with all its values.
pub fn snapshot<V>(cell: &ContextCell<V>, config: &Config) -> (r: ContextSnapshot<V>)
    ensures
        r@ == whole_snapshot(cell@, *config),
{
    match &cell.store {
        Some(store) => ContextSnapshot::new(
            store.collect_values(),
            store.scope_chain(config.max_scope_chain_len),
        ),
        None => ContextSnapshot::empty(),
    }
}

/// Start the context afresh from a snapshot.
pub fn restore<V>(cell: &mut ContextCell<V>, snapshot: ContextSnapshot<V>)
    ensures
        final(cell)@ == (match old(cell)@ {
            Some(_) => Some(StoreView::from_values(snapshot@.values, snapshot@.scope_chain)),
            None => None,
        }),
{
    if cell.store.is_some() {
        let values = snapshot.share_values();
        cell.store = Some(
            ContextStore::from_values_with_chain(values, snapshot.into_scope_chain()),
        );
    }
}

/// Empty the context.
pub fn clear<V>(cell: &mut ContextCell<V>)
    ensures
        final(cell)@ == (match old(cell)@ {
            Some(_) => Some(StoreView::<TypedValue<V>>::root()),
            None => None,
        }),
{
    context::clear(cell)
}

/// A store that reads through to this context.
pub fn fork<V>(cell: &ContextCell<V>) -> (r: Option<ContextStore<TypedValue<V>>>)
    ensures
        match cell@ {
            Some(store) => r is Some && r->0@ == store.fork(),
            None => r is None,
        },
{
    match &cell.store {
        Some(store) => Some(store.fork_child()),
        None => None,
    }
}

} // verus!
