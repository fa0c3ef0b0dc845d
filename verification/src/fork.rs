//! Handles that a task is started from, with the context of another.

use vstd::prelude::*;

use crate::cell::ContextCell;
use crate::registry::Registry;
use crate::store::{ContextStore, StoreView};
use crate::value::TypedValue;

verus! {

/// A cheap handle to a context, to be carried into another task. What is read
/// there are the values at the time of the fork; what is written there does not
/// come back.
pub struct ForkHandle<V> {
    child: Option<ContextStore<TypedValue<V>>>,
}

impl<V> View for ForkHandle<V> {
    type V = StoreView<TypedValue<V>>;

    /// The store that a task starts with.
    closed spec fn view(&self) -> StoreView<TypedValue<V>> {
        match self.child {
            Some(store) => store@,
            None => StoreView::root(),
        }
    }
}

impl<V> ForkHandle<V> {
    /// A handle to nothing.
    pub fn empty() -> (r: Self)
        ensures
            r@ == StoreView::<TypedValue<V>>::root(),
    {
        ForkHandle { child: None }
    }
}

impl<V> Clone for ForkHandle<V> {
    fn clone(&self) -> (r: Self)
        ensures
            r@ == self@,
    {
        match &self.child {
            Some(store) => ForkHandle { child: Some(store.duplicate()) },
            None => ForkHandle { child: None },
        }
    }
}

/// A handle to the context in a cell; to nothing where the cell is busy.
pub fn fork<V, E, D, M>(cell: &ContextCell<V>, registry: &Registry<'_, E, D, M>) -> (r: ForkHandle<
    V,
>)
    requires
        crate::context::can_enter(cell@),
    ensures
        r@ == (match cell@ {
            Some(store) => store.push(crate::registry::cached_set(registry@), None),
            None => StoreView::root(),
        }),
{
    match &cell.store {
        Some(store) => create_fork_handle(store, registry),
        None => ForkHandle::empty(),
    }
}

/// A handle to the context in a store. A task that starts from it works in a
/// scope of its own inside the active scope, with the cached keys at hand.
pub fn create_fork_handle<V, E, D, M>(
    store: &ContextStore<TypedValue<V>>,
    registry: &Registry<'_, E, D, M>,
) -> (r: ForkHandle<V>)
    requires
        store@.current.depth < usize::MAX,
    ensures
        r@ == store@.push(crate::registry::cached_set(registry@), None),
{
    let mut child = store.duplicate();
    let _ = child.push_scope(registry, None);
    ForkHandle { child: Some(child) }
}

/// The store that a task starts with.
pub fn build_forked_store<V>(handle: ForkHandle<V>) -> (r: ContextStore<TypedValue<V>>)
    ensures
        r@ == handle@,
{
    match handle.child {
        Some(store) => store,
        None => ContextStore::new(),
    }
}

/// A task that starts from a fork reads what the forked context holds.
pub proof fn law_forked_task_reads_parent_values<V>(
    store: StoreView<TypedValue<V>>,
    cached: Set<Seq<char>>,
    key: Seq<char>,
)
    requires
        store.wf(),
    ensures
        store.push(cached, None).get(key) == store.get(key),
{
    crate::store_laws::law_push_keeps_values(store, cached, None, key);
}

} // verus!
