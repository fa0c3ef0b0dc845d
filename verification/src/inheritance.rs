//! How a task or a thread comes to the context of the one that starts it.

use vstd::prelude::*;

use crate::async_ctx;
use crate::cell::{ContextCell, TaskSlot};
use crate::config::Config;
use crate::snapshot::ContextSnapshot;
use crate::store::{ContextStore, StoreView};
use crate::sync_ctx;
use crate::value::TypedValue;

verus! {

/// How a context is handed on.
#[derive(Debug, Clone, Copy, PartialEq, Eq, Structural)]
pub enum ContextInheritance {
    /// Share it: reads fall through to the scopes that are forked from.
    Fork,
    /// Copy it: all values are collected into one scope.
    Snapshot,
}

impl Default for ContextInheritance {
    fn default() -> (r: Self)
        ensures
            r == ContextInheritance::Fork,
    {
        ContextInheritance::Fork
    }
}

/// The store that a context is handed on as.
pub open spec fn inherited<V>(
    context: Option<StoreView<TypedValue<V>>>,
    mode: ContextInheritance,
    config: Config,
) -> StoreView<TypedValue<V>> {
    match mode {
        ContextInheritance::Fork => match context {
            Some(store) => store.fork(),
            None => StoreView::root(),
        },
        ContextInheritance::Snapshot => {
            let shown = sync_ctx::whole_snapshot(context, config);
            StoreView::from_values(shown.values, shown.scope_chain)
        },
    }
}

/// The store that a task hands on.
pub fn capture_async<V>(slot: &TaskSlot<V>, mode: ContextInheritance, config: &Config) -> (r:
    ContextStore<TypedValue<V>>)
    ensures
        r@ == inherited(crate::cell::task_store(slot@), mode, *config),
{
    match mode {
        ContextInheritance::Fork => match async_ctx::fork(slot) {
            Some(store) => store,
            None => ContextStore::new(),
        },
        ContextInheritance::Snapshot => snapshot_to_store(async_ctx::snapshot(slot, config)),
    }
}

/// The store that a thread hands on.
pub fn capture_sync<V>(cell: &ContextCell<V>, mode: ContextInheritance, config: &Config) -> (r:
    ContextStore<TypedValue<V>>)
    ensures
        r@ == inherited(cell@, mode, *config),
{
    match mode {
        ContextInheritance::Fork => match sync_ctx::fork(cell) {
            Some(store) => store,
            None => ContextStore::new(),
        },
        ContextInheritance::Snapshot => snapshot_to_store(sync_ctx::snapshot(cell, config)),
    }
}

/// A store whose root scope holds everything that a snapshot holds.
pub fn snapshot_to_store<V>(snapshot: ContextSnapshot<V>) -> (r: ContextStore<TypedValue<V>>)
    ensures
        r@ == StoreView::from_values(snapshot@.values, snapshot@.scope_chain),
{
    let values = snapshot.share_values();
    ContextStore::from_values_with_chain(values, snapshot.into_scope_chain())
}

/// Work on an inherited store in place of the one that the thread has. Gives
/// out what the thread had; a busy cell stays as it is.
pub fn swap_in<V>(cell: &mut ContextCell<V>, store: ContextStore<TypedValue<V>>) -> (r: Option<
    ContextStore<TypedValue<V>>,
>)
    ensures
        r == old(cell).store,
        final(cell).store == (match old(cell).store {
            Some(_) => Some(store),
            None => None,
        }),
{
    if cell.store.is_some() {
        cell.replace(store)
    } else {
        None
    }
}

/// Put back what [`swap_in`] gave out.
pub fn swap_back<V>(cell: &mut ContextCell<V>, saved: Option<ContextStore<TypedValue<V>>>)
    ensures
        final(cell).store == (if saved is Some && old(cell).store is Some {
            saved
        } else {
            old(cell).store
        }),
{
    match saved {
        Some(store) => {
            if cell.store.is_some() {
                cell.store = Some(store);
            }
        },
        None => {},
    }
}

/// Whichever way a context is handed on, its values are read there, under the
/// same scope chain.
pub proof fn law_inherited_values<V>(
    store: StoreView<TypedValue<V>>,
    mode: ContextInheritance,
    config: Config,
    key: Seq<char>,
)
    requires
        store.wf(),
    ensures
        inherited(Some(store), mode, config).get(key) == store.get(key),
        inherited(Some(store), mode, config).scope_chain(config.max_scope_chain_len as nat)
            == store.scope_chain(config.max_scope_chain_len as nat),
{
    let limit = config.max_scope_chain_len as nat;
    match mode {
        ContextInheritance::Fork => {
            crate::store_laws::law_fork_has_the_same_values(store, key);
            crate::store_laws::law_fork_has_the_same_chain(store, limit);
        },
        ContextInheritance::Snapshot => {
            crate::store_laws::law_root_values(
                store.effective(),
                store.scope_chain(limit),
                key,
            );
            crate::store_laws::law_chain_is_bounded(store, limit);
        },
    }
}

} // verus!
