//! Futures that carry a snapshot and install it for each step.

use vstd::prelude::*;

use crate::cell::ContextCell;
use crate::config::Config;
use crate::context;
use crate::registry::Registry;
use crate::scope::ScopeGuard;
use crate::snapshot::ContextSnapshot;
use crate::store::StoreView;
use crate::store_laws;
use crate::sync_ctx;
use crate::value::TypedValue;

verus! {

/// A future together with the snapshot that it works on. Around each step the
/// snapshot is installed in the context of the thread; what the step changed is
/// kept for the next one.
pub struct ContextFuture<F, V> {
    pub inner: F,
    pub snapshot: ContextSnapshot<V>,
}

impl<F, V> ContextFuture<F, V> {
    /// What the future works on.
    pub open spec fn snapshot_view(&self) -> crate::snapshot::SnapshotView<V> {
        self.snapshot@
    }

    /// A future that works on a snapshot.
    pub fn new(snapshot: ContextSnapshot<V>, future: F) -> (r: Self)
        ensures
            r.inner == future,
            r.snapshot_view() == snapshot@,
    {
        ContextFuture { inner: future, snapshot }
    }

    /// Before a step: install the snapshot in a scope of its own.
    pub fn begin_poll<E, D, M>(
        &self,
        cell: &mut ContextCell<V>,
        registry: &Registry<'_, E, D, M>,
    ) -> (r: ScopeGuard)
        requires
            context::can_enter(old(cell)@),
        ensures
            final(cell)@ == (match old(cell)@ {
                Some(store) => Some(
                    context::installed(
                        store,
                        crate::registry::cached_set(registry@),
                        None,
                        self.snapshot_view(),
                    ),
                ),
                None => None,
            }),
            r.depth() == context::entered_depth(old(cell)@),
    {
        context::install_snapshot(cell, registry, None, &self.snapshot)
    }

    /// After a step: keep what the context shows now, and leave the scope.
    pub fn end_poll(&mut self, cell: &mut ContextCell<V>, config: &Config, guard: ScopeGuard)
        ensures
            final(self).inner == old(self).inner,
            final(self).snapshot_view() == sync_ctx::whole_snapshot(old(cell)@, *config),
            final(cell)@ == context::left(old(cell)@, guard.depth()),
    {
        self.snapshot = sync_ctx::snapshot(cell, config);
        context::leave_scope(cell, guard.expected_depth());
    }
}

/// A future that works on a snapshot of the context of the thread.
pub fn with_context_future<F, V>(cell: &ContextCell<V>, config: &Config, future: F) -> (r:
    ContextFuture<F, V>)
    ensures
        r.inner == future,
        r.snapshot_view() == sync_ctx::whole_snapshot(cell@, *config),
{
    ContextFuture::new(sync_ctx::snapshot(cell, config), future)
}

/// A step leaves the context of the thread as it was, whatever it does inside
/// the scope that is entered for it.
pub proof fn law_step_leaves_no_trace<V>(
    store: StoreView<TypedValue<V>>,
    after: StoreView<TypedValue<V>>,
)
    requires
        store.wf(),
        !store.is_full(),
        store_laws::inside(after, store),
    ensures
        context::left(Some(after), context::entered_depth(Some(store))) == Some(store),
{
    store_laws::law_leaving_reverts(after, store);
}

/// A snapshot is installed inside the scope that was entered for it. Its values
/// are read there, and its names take the place of those of the store's own
/// scopes; without names of its own the chain goes on from that of the store.
/// Leaving the scope brings the store back.
pub proof fn law_snapshot_is_installed_inside<V>(
    store: StoreView<TypedValue<V>>,
    cached: Set<Seq<char>>,
    name: Option<Seq<char>>,
    snapshot: crate::snapshot::SnapshotView<V>,
    key: Seq<char>,
)
    requires
        store.wf(),
        !store.is_full(),
    ensures
        ({
            let inner = context::installed(store, cached, name, snapshot);
            &&& store_laws::inside(inner, store)
            &&& inner.get(key) == (if snapshot.values.contains_key(key) {
                Some(snapshot.values[key])
            } else {
                store.get(key)
            })
            &&& snapshot.scope_chain.len() > 0 ==> inner.all_names() == snapshot.scope_chain
                + crate::scope::names_above(store.visible_frozen(), -1)
            &&& snapshot.scope_chain.len() > 0 && store.frozen.len() == 0 ==> inner.all_names()
                == snapshot.scope_chain
            &&& snapshot.scope_chain.len() == 0 ==> inner.all_names() == (match name {
                Some(text) => store.all_names().push(text),
                None => store.all_names(),
            })
            &&& context::left(Some(inner), context::entered_depth(Some(store))) == Some(store)
        }),
{
    let inner = context::installed(store, cached, name, snapshot);
    store_laws::law_push_goes_inside(store, cached, name);
    store_laws::law_push_keeps_values(store, cached, name, key);
    store_laws::lemma_get_splits(store.push(cached, name), key);
    store_laws::lemma_get_splits(inner, key);
    if snapshot.scope_chain.len() > 0 {
        store_laws::lemma_installed_names(inner);
    } else {
        let entered = store.push(cached, name);
        store_laws::law_push_adds_name(store, cached, name);
        let before = seq![entered.current] + entered.visible_parents();
        let after = seq![inner.current] + inner.visible_parents();
        assert(before.drop_first() =~= after.drop_first());
        assert(inner.all_names() =~= entered.all_names());
    }
    store_laws::law_leaving_reverts(inner, store);
}

/// What the context showed at the end of a step is what the next step reads,
/// whatever thread it runs on.
pub proof fn law_next_step_reads_what_the_last_one_left<V>(
    ended: StoreView<TypedValue<V>>,
    config: Config,
    thread: StoreView<TypedValue<V>>,
    cached: Set<Seq<char>>,
    key: Seq<char>,
)
    requires
        thread.wf(),
        !thread.is_full(),
    ensures
        ({
            let next = context::installed(
                thread,
                cached,
                None,
                sync_ctx::whole_snapshot(Some(ended), config),
            );
            &&& ended.get(key) is Some ==> next.get(key) == ended.get(key)
            &&& ended.get(key) is None ==> next.get(key) == thread.get(key)
        }),
{
    let snapshot = sync_ctx::whole_snapshot(Some(ended), config);
    law_snapshot_is_installed_inside(thread, cached, None, snapshot, key);
    store_laws::law_collected_values(ended, key);
}

} // verus!
