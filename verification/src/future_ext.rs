//! Futures that own a store and work on it in place of the thread's.

use vstd::prelude::*;

use crate::cell::ContextCell;
use crate::config::Config;
use crate::context;
use crate::inheritance::{capture_sync, ContextInheritance};
use crate::registry::Registry;
use crate::snapshot::{store_from_snapshot_with_registry, ContextSnapshot};
use crate::store::{ContextStore, StoreView};
use crate::value::TypedValue;

verus! {

/// A future together with the store that it works on. The store is in the cell
/// of the thread during each step and out of it between steps, so that what a
/// step changed is there for the next one.
pub struct WithContext<F, V> {
    pub inner: F,
    pub store: Option<ContextStore<TypedValue<V>>>,
}

/// Before a step: the store goes from the future into the cell, and what the
/// cell held is kept aside. Gives what the future, the cell and the place aside
/// hold.
pub open spec fn step_begun<S>(store: Option<S>, cell: Option<S>) -> (
    Option<S>,
    Option<S>,
    Option<S>,
) {
    (None, store, cell)
}

/// After a step: the store goes from the cell back to the future, and the cell
/// gets back what was kept aside. Gives what the future and the cell hold.
pub open spec fn step_ended<S>(cell: Option<S>, kept: Option<S>) -> (Option<S>, Option<S>) {
    (cell, kept)
}

/// A step of a future leaves the cell as it was, and what the step made of the
/// store is what the next step begins with.
pub proof fn law_step_is_isolated<S>(
    store: Option<S>,
    cell: Option<S>,
    changed: Option<S>,
    next_cell: Option<S>,
)
    ensures
        ({
            let (_, during, kept) = step_begun(store, cell);
            let (after, restored) = step_ended(changed, kept);
            &&& during == store
            &&& restored == cell
            &&& step_begun(after, next_cell).1 == changed
        }),
{
}

impl<F, V> WithContext<F, V> {
    /// The store between steps.
    pub open spec fn store_view(&self) -> Option<StoreView<TypedValue<V>>> {
        match self.store {
            Some(store) => Some(store@),
            None => None,
        }
    }

    /// Before a step: put the store into the cell. Gives out what the cell
    /// held.
    pub fn begin_poll(&mut self, cell: &mut ContextCell<V>) -> (r: ContextCell<V>)
        ensures
            final(self).inner == old(self).inner,
            (final(self).store_view(), final(cell)@, r@) == step_begun(
                old(self).store_view(),
                old(cell)@,
            ),
    {
        let mut taken: ContextCell<V> = ContextCell { store: self.store.take() };
        std::mem::swap(&mut taken, cell);
        taken
    }

    /// After a step: take the store back, and put back what the cell held.
    pub fn end_poll(&mut self, cell: &mut ContextCell<V>, prev: ContextCell<V>)
        ensures
            final(self).inner == old(self).inner,
            (final(self).store_view(), final(cell)@) == step_ended(old(cell)@, prev@),
    {
        let mut taken: ContextCell<V> = prev;
        std::mem::swap(&mut taken, cell);
        self.store = taken.store;
    }
}

/// Giving a future a context of its own.
pub trait ContextFutureExt: Sized {
    /// Work on the given store.
    fn with<V>(self, store: ContextStore<TypedValue<V>>) -> (r: WithContext<Self, V>)
        ensures
            r.inner == self,
            r.store_view() == Some(store@),
    ;

    /// Work on a fork of the context: its values are read, and writes stay in
    /// the future.
    fn fork<V>(self, cell: &ContextCell<V>) -> (r: WithContext<Self, V>)
        ensures
            r.inner == self,
            r.store_view() == Some(forked(cell@)),
    ;

    /// Work on a snapshot.
    fn attach<V, E, D, M>(
        self,
        registry: &Registry<'_, E, D, M>,
        snapshot: ContextSnapshot<V>,
    ) -> (r: WithContext<Self, V>)
        ensures
            r.inner == self,
            r.store_view() == Some(
                StoreView::from_values(
                    crate::snapshot::admitted(registry@, snapshot@.values),
                    snapshot@.scope_chain,
                ),
            ),
    ;

    /// Work on a copy of all that the context shows.
    fn capture<V>(self, cell: &ContextCell<V>, config: &Config) -> (r: WithContext<Self, V>)
        ensures
            r.inner == self,
            r.store_view() == Some(recaptured(cell@, *config)),
    ;

    /// Work on a fork of the context, in a named scope.
    fn scope<V, E, D, M>(
        self,
        cell: &ContextCell<V>,
        registry: &Registry<'_, E, D, M>,
        name: &str,
    ) -> (r: WithContext<Self, V>)
        ensures
            r.inner == self,
            r.store_view() == Some(
                forked(cell@).push(crate::registry::cached_set(registry@), Some(name@)),
            ),
    ;

    /// Work on a copy of all that the context shows, in a named scope.
    fn capture_scope<V, E, D, M>(
        self,
        cell: &ContextCell<V>,
        registry: &Registry<'_, E, D, M>,
        config: &Config,
        name: &str,
    ) -> (r: WithContext<Self, V>)
        ensures
            r.inner == self,
            r.store_view() == Some(
                recaptured(cell@, *config).push(
                    crate::registry::cached_set(registry@),
                    Some(name@),
                ),
            ),
    ;
}

/// The fork of what a cell holds.
pub open spec fn forked<V>(cell: Option<StoreView<TypedValue<V>>>) -> StoreView<TypedValue<V>> {
    match cell {
        Some(store) => store.fork(),
        None => StoreView::root(),
    }
}

/// A store that starts from a copy of all that a cell shows.
pub open spec fn recaptured<V>(
    cell: Option<StoreView<TypedValue<V>>>,
    config: Config,
) -> StoreView<TypedValue<V>> {
    crate::inheritance::inherited(cell, ContextInheritance::Snapshot, config)
}

/// A future that works on a copy of the context reads every value that the
/// context shows, those included that stay in the process, under the same scope
/// chain; in a named scope too, whose name comes last.
pub proof fn law_captured_future_reads_everything<V>(
    store: StoreView<TypedValue<V>>,
    config: Config,
    cached: Set<Seq<char>>,
    name: Seq<char>,
    key: Seq<char>,
)
    requires
        store.wf(),
    ensures
        ({
            let copy = recaptured(Some(store), config);
            let chain = store.scope_chain(config.max_scope_chain_len as nat);
            &&& copy.get(key) == store.get(key)
            &&& copy.all_names() == chain
            &&& copy.push(cached, Some(name)).get(key) == store.get(key)
            &&& copy.push(cached, Some(name)).all_names() == chain.push(name)
        }),
{
    let copy = recaptured(Some(store), config);
    let chain = store.scope_chain(config.max_scope_chain_len as nat);
    crate::store_laws::law_root_values(store.effective(), chain, key);
    crate::store_laws::law_collected_values(store, key);
    crate::store_laws::law_push_keeps_values(copy, cached, Some(name), key);
    crate::store_laws::law_push_adds_name(copy, cached, Some(name));
}

impl<F: Sized> ContextFutureExt for F {
    fn with<V>(self, store: ContextStore<TypedValue<V>>) -> (r: WithContext<Self, V>) {
        WithContext { inner: self, store: Some(store) }
    }

    fn fork<V>(self, cell: &ContextCell<V>) -> (r: WithContext<Self, V>) {
        WithContext { inner: self, store: Some(context::fork(cell)) }
    }

    fn attach<V, E, D, M>(
        self,
        registry: &Registry<'_, E, D, M>,
        snapshot: ContextSnapshot<V>,
    ) -> (r: WithContext<Self, V>) {
        let store = store_from_snapshot_with_registry(snapshot, registry);
        WithContext { inner: self, store: Some(store) }
    }

    fn capture<V>(self, cell: &ContextCell<V>, config: &Config) -> (r: WithContext<Self, V>) {
        let store = capture_sync(cell, ContextInheritance::Snapshot, config);
        WithContext { inner: self, store: Some(store) }
    }

    fn scope<V, E, D, M>(
        self,
        cell: &ContextCell<V>,
        registry: &Registry<'_, E, D, M>,
        name: &str,
    ) -> (r: WithContext<Self, V>) {
        let mut store = context::fork(cell);
        let _ = store.push_scope(registry, Some(name.to_owned()));
        WithContext { inner: self, store: Some(store) }
    }

    fn capture_scope<V, E, D, M>(
        self,
        cell: &ContextCell<V>,
        registry: &Registry<'_, E, D, M>,
        config: &Config,
        name: &str,
    ) -> (r: WithContext<Self, V>) {
        let mut store = capture_sync(cell, ContextInheritance::Snapshot, config);
        let _ = store.push_scope(registry, Some(name.to_owned()));
        WithContext { inner: self, store: Some(store) }
    }
}

} // verus!
