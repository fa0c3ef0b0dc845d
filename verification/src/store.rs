//! The context store: the active scope, the scopes around it, and what a fork
//! left behind.

use std::sync::Arc;
use vstd::prelude::*;

use crate::frozen::{
    collect_from_frozen, find_in_frozen, names_in_frozen, share_frozen, FrozenScopes,
};
use crate::key_map::KeyMap;
use crate::registry::Registry;
use crate::scope::{
    arc_try_unwrap, chain_len, collect_from_chain, copy_name, find_in_chain, names_in_chain, share_chain,
    ScopeGarbage, ScopeNode, ScopeView,
};
use crate::text::copy_list;

verus! {

/// The number of scopes around the root that are really kept. Scopes entered
/// beyond it only count up the depth, so that runaway recursion cannot use up
/// the memory.
pub const MAX_SCOPE_DEPTH: usize = 1024;

/// What a store holds.
#[verifier::ext_equal]
#[verifier::reject_recursive_types(V)]
pub struct StoreView<V> {
    /// The active scope.
    pub current: ScopeView<V>,
    /// The scopes around it, the innermost first.
    pub parents: Seq<ScopeView<V>>,
    /// The scopes that this store was forked from, the innermost first.
    pub frozen: Seq<ScopeView<V>>,
}

/// The last entries of a list, as many as a limit allows; 0 is no limit.
pub open spec fn keep_last<T>(list: Seq<T>, limit: nat) -> Seq<T> {
    if limit > 0 && list.len() > limit {
        list.skip(list.len() - limit)
    } else {
        list
    }
}

impl<V> StoreView<V> {
    /// A store with an empty root scope.
    pub open spec fn root() -> Self {
        StoreView {
            current: ScopeView {
                name: None,
                values: Map::empty(),
                depth: 1,
                remote_chain: Seq::empty(),
                remote_base: 0,
                barrier: None,
            },
            parents: Seq::empty(),
            frozen: Seq::empty(),
        }
    }

    /// A store whose root scope holds values and names that came from elsewhere.
    pub open spec fn from_values(
        values: Map<Seq<char>, Arc<V>>,
        remote_chain: Seq<Seq<char>>,
    ) -> Self {
        StoreView {
            current: ScopeView {
                name: None,
                values,
                depth: 1,
                remote_chain,
                remote_base: 1,
                barrier: None,
            },
            parents: Seq::empty(),
            frozen: Seq::empty(),
        }
    }

    /// The scopes around the active one lie at every depth from its own down to
    /// the root, except that no scope beyond the limit is kept. Each scope is in
    /// order, unless it was changed from a scope that is not kept.
    pub open spec fn wf(self) -> bool {
        &&& 1 <= self.current.depth <= usize::MAX
        &&& self.parents.len() == (if self.current.depth - 1 <= MAX_SCOPE_DEPTH {
            self.current.depth - 1
        } else {
            MAX_SCOPE_DEPTH as int
        })
        &&& forall|i: int|
            0 <= i < self.parents.len() ==> (#[trigger] self.parents[i]).depth
                == self.parents.len() - i && self.parents[i].in_order()
        &&& self.is_full() || self.current.in_order()
    }

    /// The depth down to which scopes are hidden; 0 hides none.
    pub open spec fn hidden_depth(self) -> int {
        match self.current.barrier {
            Some(depth) => depth as int,
            None => 0,
        }
    }

    /// The scopes around the active one that a lookup reaches.
    pub open spec fn visible_parents(self) -> Seq<ScopeView<V>> {
        crate::scope::visible(self.parents, self.hidden_depth())
    }

    /// The forked scopes that a lookup reaches: none behind a barrier.
    pub open spec fn visible_frozen(self) -> Seq<ScopeView<V>> {
        if self.current.barrier is None {
            self.frozen
        } else {
            Seq::empty()
        }
    }

    /// The scopes that a lookup goes through, in its order.
    pub open spec fn layers(self) -> Seq<ScopeView<V>> {
        seq![self.current] + self.visible_parents() + self.visible_frozen()
    }

    /// The value that a key has here.
    pub open spec fn get(self, key: Seq<char>) -> Option<Arc<V>> {
        crate::scope::find(self.layers(), key)
    }

    /// All keys that have a value here, with their values.
    pub open spec fn effective(self) -> Map<Seq<char>, Arc<V>> {
        crate::scope::effective(self.layers())
    }

    /// The names that lead here: those from elsewhere, those of the scopes
    /// forked from, and those of the scopes entered since.
    pub open spec fn all_names(self) -> Seq<Seq<char>> {
        self.current.remote_chain + crate::scope::names_above(self.visible_frozen(), -1)
            + crate::scope::names_above(
            seq![self.current] + self.visible_parents(),
            self.current.remote_base as int,
        )
    }

    /// The scope chain, cut to the most recent names where it is over the limit.
    pub open spec fn scope_chain(self, limit: nat) -> Seq<Seq<char>> {
        keep_last(self.all_names(), limit)
    }

    /// Hold a value for a key in the active scope.
    pub open spec fn set(self, key: Seq<char>, value: Arc<V>) -> Self {
        StoreView {
            current: ScopeView { values: self.current.values.insert(key, value), ..self.current },
            ..self
        }
    }

    /// The active scope lies deeper than any scope that is kept.
    pub open spec fn is_full(self) -> bool {
        self.current.depth > MAX_SCOPE_DEPTH
    }

    /// Enter a scope. It starts with the values of the cached keys. Once the
    /// store is full only the depth goes up.
    pub open spec fn push(self, cached: Set<Seq<char>>, name: Option<Seq<char>>) -> Self {
        let depth = self.current.depth + 1;
        if self.is_full() {
            StoreView { current: ScopeView { depth, ..self.current }, ..self }
        } else {
            StoreView {
                current: ScopeView {
                    name,
                    values: self.effective().restrict(cached),
                    depth,
                    ..self.current
                },
                parents: seq![self.current] + self.parents,
                frozen: self.frozen,
            }
        }
    }

    /// How many scopes are given up for the scope at `expected` to be left.
    pub open spec fn pop_count(self, expected: nat) -> int {
        self.parents.len() - (expected - 1)
    }

    /// Whether a request to leave the scope at `expected` gives up a kept scope.
    pub open spec fn pops_kept(self, expected: nat) -> bool {
        1 < expected <= self.current.depth && expected <= MAX_SCOPE_DEPTH + 1
    }

    /// Leave the scope at `expected` and every scope inside it. The root scope
    /// is not left, nor one that was left before.
    pub open spec fn pop(self, expected: nat) -> Self {
        if self.current.depth < expected || expected <= 1 {
            self
        } else if expected > MAX_SCOPE_DEPTH + 1 {
            StoreView {
                current: ScopeView { depth: (expected - 1) as nat, ..self.current },
                ..self
            }
        } else {
            let count = self.pop_count(expected);
            StoreView {
                current: self.parents[count],
                parents: self.parents.skip(count + 1),
                frozen: self.frozen,
            }
        }
    }

    /// The scopes given up when the scope at `expected` is left, innermost first.
    pub open spec fn popped(self, expected: nat) -> Seq<ScopeView<V>> {
        seq![self.current] + self.parents.take(self.pop_count(expected))
    }

    /// The scopes of the store itself that a lookup goes through, with the names
    /// that are listed here.
    pub open spec fn own_layers(self) -> Seq<ScopeView<V>> {
        crate::frozen::listed(
            seq![self.current] + self.visible_parents(),
            self.current.remote_base as int,
        )
    }

    /// A store with a fresh root scope that reads through to what is seen here:
    /// the scopes of this store, and those that it reads through to itself.
    pub open spec fn fork(self) -> Self {
        StoreView {
            current: ScopeView {
                name: None,
                values: Map::empty(),
                depth: 1,
                remote_chain: self.current.remote_chain,
                remote_base: 0,
                barrier: None,
            },
            parents: Seq::empty(),
            frozen: self.own_layers() + self.visible_frozen(),
        }
    }

    /// Install names that came from elsewhere at the active scope.
    pub open spec fn with_remote_chain(self, chain: Seq<Seq<char>>) -> Self {
        StoreView {
            current: ScopeView {
                remote_chain: chain,
                remote_base: self.current.depth,
                ..self.current
            },
            ..self
        }
    }

    /// Hide the scopes around the active one.
    pub open spec fn with_barrier(self) -> Self {
        StoreView {
            current: ScopeView {
                barrier: Some((self.current.depth - 1) as nat),
                ..self.current
            },
            ..self
        }
    }
}

/// The parts of a store.
struct State<V> {
    scope_chain: Option<Arc<ScopeNode<V>>>,
    current_values: KeyMap<Arc<V>>,
    current_name: Option<String>,
    depth: usize,
    remote_chain: Arc<Vec<String>>,
    remote_chain_base_depth: usize,
    frozen_parent: Option<Arc<FrozenScopes<V>>>,
    scope_barrier: Option<usize>,
}

/// The active context state.
///
/// A store lives in a cell. It is moved out of the cell while it is changed
/// and moved back afterwards; a cell that is empty is busy, and whoever finds
/// it so gets defaults.
pub struct ContextStore<V> {
    state: State<V>,
}

impl<V> State<V> {
    spec fn store_view(&self) -> StoreView<V> {
        StoreView {
            current: ScopeView {
                name: crate::scope::name_view(self.current_name),
                values: self.current_values@,
                depth: self.depth as nat,
                remote_chain: crate::text::views(self.remote_chain@),
                remote_base: self.remote_chain_base_depth as nat,
                barrier: crate::scope::depth_view(self.scope_barrier),
            },
            parents: crate::scope::chain_view(self.scope_chain),
            frozen: crate::frozen::frozen_view(self.frozen_parent),
        }
    }

    fn root() -> (r: Self)
        ensures
            r.store_view() == StoreView::<V>::root(),
    {
        let r = State {
            scope_chain: None,
            current_values: KeyMap::new(),
            current_name: None,
            depth: 1,
            remote_chain: Arc::new(Vec::new()),
            remote_chain_base_depth: 0,
            frozen_parent: None,
            scope_barrier: None,
        };
        assert(r.store_view() =~= StoreView::<V>::root());
        r
    }

    fn get_value(&self, key: &str) -> (r: Option<Arc<V>>)
        requires
            self.store_view().wf(),
        ensures
            r == self.store_view().get(key@),
    {
        proof {
            let view = self.store_view();
            let own = seq![view.current];
            crate::scope::lemma_find_concat(own + view.visible_parents(), view.visible_frozen(), key@);
            crate::scope::lemma_find_concat(own, view.visible_parents(), key@);
            reveal_with_fuel(crate::scope::find, 2);
            assert(own.drop_first() =~= Seq::<ScopeView<V>>::empty());
        }
        if let Some(value) = self.current_values.get(key) {
            return Some(Arc::clone(value));
        }
        let barrier: usize = match self.scope_barrier {
            Some(depth) => depth,
            None => 0,
        };
        if let Some(value) = find_in_chain(&self.scope_chain, barrier, key) {
            return Some(value);
        }
        if self.scope_barrier.is_none() {
            return find_in_frozen(&self.frozen_parent, key);
        }
        None
    }

    fn collect_values(&self) -> (r: KeyMap<Arc<V>>)
        requires
            self.store_view().wf(),
        ensures
            r@ == self.store_view().effective(),
    {
        let ghost view = self.store_view();
        let ghost own = seq![view.current];
        proof {
            crate::scope::lemma_effective_concat(
                own + view.visible_parents(),
                view.visible_frozen(),
            );
            crate::scope::lemma_effective_concat(own, view.visible_parents());
            crate::scope::lemma_effective_single(view.current);
        }
        let mut result = self.current_values.share();
        let barrier: usize = match self.scope_barrier {
            Some(depth) => depth,
            None => 0,
        };
        collect_from_chain(&mut result, &self.scope_chain, barrier);
        if self.scope_barrier.is_none() {
            collect_from_frozen(&mut result, &self.frozen_parent);
        } else {
            proof {
                let none = crate::scope::effective(Seq::<ScopeView<V>>::empty());
                assert(none.union_prefer_right(result@) =~= result@);
            }
        }
        result
    }

    fn scope_chain(&self, limit: usize) -> (r: Vec<String>)
        requires
            self.store_view().wf(),
        ensures
            crate::text::views(r@) == self.store_view().scope_chain(limit as nat),
    {
        let ghost view = self.store_view();
        let ghost base = view.current.remote_base as int;
        let ghost own = crate::scope::name_above(view.current, base);
        let mut local_names: Vec<String> = Vec::new();
        if let Some(name) = &self.current_name {
            if self.depth > self.remote_chain_base_depth {
                local_names.push(name.clone());
            }
        }
        assert(crate::text::views(local_names@) =~= own);
        let barrier: usize = match self.scope_barrier {
            Some(depth) => depth,
            None => 0,
        };
        names_in_chain(
            &mut local_names,
            &self.scope_chain,
            barrier,
            self.remote_chain_base_depth,
        );
        let ghost outer = crate::scope::names_above(view.visible_parents(), base);
        proof {
            crate::scope::lemma_names_concat(seq![view.current], view.visible_parents(), base);
            assert(seq![view.current].drop_first() =~= Seq::<ScopeView<V>>::empty());
            reveal_with_fuel(crate::scope::names_above, 2);
            assert(crate::scope::names_above(seq![view.current], base) =~= own);
            assert(own.reverse() =~= own);
            assert(crate::text::views(local_names@).reverse() =~= outer + own);
        }
        let mut parent_names: Vec<String> = Vec::new();
        if self.scope_barrier.is_none() {
            names_in_frozen(&mut parent_names, &self.frozen_parent);
        }
        proof {
            let frozen_names = crate::scope::names_above(view.visible_frozen(), -1);
            assert(crate::text::views(parent_names@).reverse() =~= frozen_names);
        }
        let mut chain: Vec<String> = copy_list(&self.remote_chain);
        append_reversed(&mut chain, parent_names);
        append_reversed(&mut chain, local_names);
        assert(crate::text::views(chain@) =~= view.all_names());
        if limit > 0 && chain.len() > limit {
            let start: usize = chain.len() - limit;
            let ghost all = chain@;
            let kept = chain.split_off(start);
            assert(crate::text::views(kept@) =~= crate::text::views(all).skip(start as int));
            kept
        } else {
            chain
        }
    }

    fn push_scope(&mut self, cached: &Vec<&'static str>, name: Option<String>) -> (r: usize)
        requires
            old(self).store_view().wf(),
            old(self).store_view().current.depth < usize::MAX,
        ensures
            final(self).store_view() == old(self).store_view().push(
                key_set(cached@),
                crate::scope::name_view(name),
            ),
            final(self).store_view().wf(),
            r == final(self).store_view().current.depth,
    {
        let ghost before = self.store_view();
        let depth: usize = self.depth + 1;
        if depth > MAX_SCOPE_DEPTH + 1 {
            self.depth = depth;
            assert(self.store_view() =~= before.push(key_set(cached@), crate::scope::name_view(name)));
            return depth;
        }
        let cached_values = self.collect_keys(cached);
        let mut frozen_values: KeyMap<Arc<V>> = cached_values;
        std::mem::swap(&mut frozen_values, &mut self.current_values);
        let mut frozen_name: Option<String> = name;
        std::mem::swap(&mut frozen_name, &mut self.current_name);
        let node = Arc::new(
            ScopeNode {
                name: frozen_name,
                values: frozen_values,
                parent: self.scope_chain.take(),
                depth: self.depth,
                remote_chain: Arc::clone(&self.remote_chain),
                remote_chain_base_depth: self.remote_chain_base_depth,
                saved_scope_barrier: self.scope_barrier,
            },
        );
        self.scope_chain = Some(node);
        self.depth = depth;
        proof {
            let after = self.store_view();
            assert(after =~= before.push(key_set(cached@), crate::scope::name_view(name)));
            assert forall|i: int| 0 <= i < after.parents.len() implies (
            #[trigger] after.parents[i]).depth == after.parents.len() - i
                && after.parents[i].in_order() by {
                if i > 0 {
                    assert(after.parents[i] == before.parents[i - 1]);
                }
            }
        }
        depth
    }

    /// The values here of the given keys.
    fn collect_keys(&self, keys: &Vec<&'static str>) -> (r: KeyMap<Arc<V>>)
        requires
            self.store_view().wf(),
        ensures
            r@ == self.store_view().effective().restrict(key_set(keys@)),
    {
        let mut values: KeyMap<Arc<V>> = KeyMap::new();
        let ghost all = self.store_view().effective();
        let mut i: usize = 0;
        assert(values@ =~= all.restrict(key_set(keys@.take(0))));
        while i < keys.len()
            invariant
                i <= keys@.len(),
                self.store_view().wf(),
                all == self.store_view().effective(),
                values@ == all.restrict(key_set(keys@.take(i as int))),
            decreases keys@.len() - i,
        {
            let key = keys[i];
            let ghost before = values@;
            proof {
                lemma_key_set_push(keys@.take(i as int), key);
                assert(keys@.take(i + 1) =~= keys@.take(i as int).push(key));
            }
            if let Some(value) = self.get_value(key) {
                let _ = values.insert(key, value);
            }
            assert(values@ =~= all.restrict(key_set(keys@.take(i + 1))));
            i = i + 1;
        }
        assert(keys@.take(i as int) =~= keys@);
        values
    }

    fn pop_scope(&mut self, expected_depth: usize) -> (r: Option<ScopeGarbage<V>>)
        requires
            old(self).store_view().wf(),
        ensures
            final(self).store_view() == old(self).store_view().pop(expected_depth as nat),
            final(self).store_view().wf(),
            r is Some == old(self).store_view().pops_kept(expected_depth as nat),
            r matches Some(garbage) ==> garbage.old_values@ == crate::scope::merged(
                old(self).store_view().popped(expected_depth as nat),
            ),
    {
        if self.depth < expected_depth || expected_depth <= 1 {
            return None;
        }
        let ghost before = self.store_view();
        let ghost goal = before.pop(expected_depth as nat);
        let mut all_old: Option<KeyMap<Arc<V>>> = None;
        while self.depth >= expected_depth && self.depth > 1
            invariant
                expected_depth > 1,
                before.wf(),
                before.current.depth >= expected_depth,
                goal == before.pop(expected_depth as nat),
                self.store_view().wf(),
                self.depth <= before.current.depth,
                self.depth >= expected_depth - 1,
                self.store_view().pop(expected_depth as nat) == goal,
                self.store_view().parents.len() <= before.parents.len(),
                self.store_view().parents == before.parents.skip(
                    before.parents.len() - self.store_view().parents.len(),
                ),
                self.store_view().parents.len() == before.parents.len() ==> (all_old is None
                    && self.store_view().current.values == before.current.values),
                self.store_view().parents.len() < before.parents.len() ==> ({
                    let count = before.parents.len() - self.store_view().parents.len();
                    &&& self.store_view().current == before.parents[count - 1]
                    &&& all_old is Some
                    &&& all_old->0@ == crate::scope::merged(
                        seq![before.current] + before.parents.take(count - 1),
                    )
                }),
            decreases self.depth,
        {
            if self.depth > MAX_SCOPE_DEPTH + 1 {
                let ghost here = self.store_view();
                self.depth = self.depth - 1;
                assert(self.store_view().pop(expected_depth as nat) =~= here.pop(
                    expected_depth as nat,
                ));
                continue;
            }
            let ghost here = self.store_view();
            let ghost done = before.parents.len() - here.parents.len();
            match self.scope_chain.take() {
                Some(node) => {
                    let ghost scope = node.scope_view();
                    let ghost rest = here.parents.skip(1);
                    assert(here.parents == seq![scope] + crate::scope::chain_view(node.parent));
                    assert(crate::scope::chain_view(node.parent) =~= rest);
                    assert(here.parents[0] == scope);
                    assert(before.parents.skip(done)[0] == before.parents[done]);
                    assert(before.parents.skip(done + 1) =~= before.parents.skip(done).skip(1));
                    let mut old_current: KeyMap<Arc<V>> = KeyMap::new();
                    match arc_try_unwrap(node) {
                        Ok(owned) => {
                            old_current = owned.values;
                            std::mem::swap(&mut old_current, &mut self.current_values);
                            self.scope_chain = owned.parent;
                            self.current_name = owned.name;
                            self.depth = owned.depth;
                            self.remote_chain = owned.remote_chain;
                            self.remote_chain_base_depth = owned.remote_chain_base_depth;
                            self.scope_barrier = owned.saved_scope_barrier;
                        },
                        Err(shared) => {
                            old_current = shared.values.share();
                            std::mem::swap(&mut old_current, &mut self.current_values);
                            self.scope_chain = share_chain(&shared.parent);
                            self.current_name = copy_name(&shared.name);
                            self.depth = shared.depth;
                            self.remote_chain = Arc::clone(&shared.remote_chain);
                            self.remote_chain_base_depth = shared.remote_chain_base_depth;
                            self.scope_barrier = shared.saved_scope_barrier;
                        },
                    }
                    proof {
                        lemma_merged_next(before, done);
                        assert(self.store_view().current =~= scope);
                        assert(self.store_view().parents =~= rest);
                        assert forall|i: int| 0 <= i < rest.len() implies (
                        #[trigger] rest[i]).depth == rest.len() - i && rest[i].in_order() by {
                            assert(rest[i] == here.parents[i + 1]);
                        }
                        let expected = expected_depth as nat;
                        if scope.depth >= expected {
                            assert(rest.skip(self.store_view().pop_count(expected) + 1)
                                =~= here.parents.skip(here.pop_count(expected) + 1));
                        }
                        assert(self.store_view().pop(expected) =~= here.pop(expected));
                    }
                    match all_old {
                        Some(existing) => {
                            let mut existing = existing;
                            existing.absorb(old_current);
                            all_old = Some(existing);
                        },
                        None => {
                            all_old = Some(old_current);
                        },
                    }
                },
                None => {
                    // A scope beyond the root has a parent.
                    assert(here.parents.len() == 0);
                },
            }
        }
        match all_old {
            Some(old_values) => Some(ScopeGarbage { old_values }),
            None => None,
        }
    }

    /// What is seen here, to be shared with a fork.
    fn freeze(&self) -> (r: Option<Arc<FrozenScopes<V>>>)
        requires
            self.store_view().wf(),
        ensures
            crate::frozen::frozen_view(r) == self.store_view().own_layers()
                + self.store_view().visible_frozen(),
    {
        let limit: usize = match self.scope_barrier {
            Some(depth) => if depth < self.depth {
                depth
            } else {
                self.depth - 1
            },
            None => 0,
        };
        let chain = Some(
            Arc::new(
                ScopeNode {
                    name: copy_name(&self.current_name),
                    values: self.current_values.share(),
                    parent: share_chain(&self.scope_chain),
                    depth: self.depth,
                    remote_chain: Arc::clone(&self.remote_chain),
                    remote_chain_base_depth: self.remote_chain_base_depth,
                    saved_scope_barrier: self.scope_barrier,
                },
            ),
        );
        let outer = if self.scope_barrier.is_none() {
            share_frozen(&self.frozen_parent)
        } else {
            None
        };
        proof {
            let view = self.store_view();
            let scopes = crate::scope::chain_view(chain);
            assert(scopes =~= seq![view.current] + view.parents);
            assert(scopes.drop_first() =~= view.parents);
            assert(crate::scope::visible(view.parents, limit as int) == view.visible_parents());
            assert(crate::scope::visible(scopes, limit as int) == seq![view.current]
                + view.visible_parents());
            reveal_with_fuel(crate::frozen::frozen_view, 2);
        }
        Some(
            Arc::new(
                FrozenScopes { chain, limit, base: self.remote_chain_base_depth, outer },
            ),
        )
    }
}

/// The texts of a list of keys.
pub open spec fn key_set(keys: Seq<&'static str>) -> Set<Seq<char>> {
    Set::new(|key: Seq<char>| exists|i: int| 0 <= i < keys.len() && (#[trigger] keys[i])@ == key)
}

proof fn lemma_key_set_push(keys: Seq<&'static str>, key: &'static str)
    ensures
        key_set(keys.push(key)) == key_set(keys).insert(key@),
{
    let after = keys.push(key);
    assert forall|k: Seq<char>| #[trigger]
        key_set(after).contains(k) == key_set(keys).insert(key@).contains(k) by {
        if key_set(keys).contains(k) {
            let i = choose|i: int| 0 <= i < keys.len() && (#[trigger] keys[i])@ == k;
            assert(after[i]@ == k);
        }
        if k == key@ {
            assert(after[keys.len() as int]@ == k);
        }
        if key_set(after).contains(k) {
            let i = choose|i: int| 0 <= i < after.len() && (#[trigger] after[i])@ == k;
            if i < keys.len() {
                assert(keys[i]@ == k);
            }
        }
    }
    assert(key_set(after) =~= key_set(keys).insert(key@));
}

/// One more scope among those given up.
proof fn lemma_merged_next<V>(store: StoreView<V>, done: int)
    requires
        0 <= done < store.parents.len(),
    ensures
        done == 0 ==> crate::scope::merged(seq![store.current] + store.parents.take(0))
            == store.current.values,
        done > 0 ==> crate::scope::merged(seq![store.current] + store.parents.take(done))
            == crate::scope::merged(
            seq![store.current] + store.parents.take(done - 1),
        ).union_prefer_right(store.parents[done - 1].values),
{
    let all = seq![store.current] + store.parents.take(done);
    if done == 0 {
        assert(all.drop_last() =~= Seq::<ScopeView<V>>::empty());
        assert(all.last() == store.current);
        assert(crate::scope::merged(all.drop_last()) =~= Map::<Seq<char>, Arc<V>>::empty());
        assert(crate::scope::merged(all) =~= store.current.values);
    } else {
        assert(all.drop_last() =~= seq![store.current] + store.parents.take(done - 1));
        assert(all.last() == store.parents[done - 1]);
    }
}

/// Append a list with its order turned round.
fn append_reversed(out: &mut Vec<String>, list: Vec<String>)
    ensures
        crate::text::views(final(out)@) == crate::text::views(old(out)@) + crate::text::views(
            list@,
        ).reverse(),
{
    let mut list = list;
    let ghost goal = crate::text::views(out@) + crate::text::views(list@).reverse();
    while list.len() > 0
        invariant
            goal == crate::text::views(out@) + crate::text::views(list@).reverse(),
        decreases list@.len(),
    {
        let ghost before = crate::text::views(out@);
        let ghost all = crate::text::views(list@);
        match list.pop() {
            Some(text) => {
                out.push(text);
                proof {
                    assert(crate::text::views(list@) =~= all.drop_last());
                    assert(crate::text::views(out@) =~= before.push(all.last()));
                    assert(all.reverse() =~= seq![all.last()] + all.drop_last().reverse());
                    assert(before + (seq![all.last()] + all.drop_last().reverse())
                        =~= before.push(all.last()) + all.drop_last().reverse());
                }
            },
            None => {},
        }
    }
    assert(goal =~= crate::text::views(out@));
}

impl<V> View for ContextStore<V> {
    type V = StoreView<V>;

    closed spec fn view(&self) -> StoreView<V> {
        self.state.store_view()
    }
}

impl<V> ContextStore<V> {
    #[verifier::type_invariant]
    spec fn sound(&self) -> bool {
        self.state.store_view().wf()
    }

    /// A store with an empty root scope.
    pub fn new() -> (r: Self)
        ensures
            r@ == StoreView::<V>::root(),
            r@.wf(),
    {
        ContextStore { state: State::root() }
    }

    /// A store whose root scope holds values and names that came from elsewhere.
    pub fn from_values_with_chain(values: KeyMap<Arc<V>>, remote_chain: Vec<String>) -> (r: Self)
        ensures
            r@ == StoreView::<V>::from_values(values@, crate::text::views(remote_chain@)),
            r@.wf(),
    {
        let state = State {
            scope_chain: None,
            current_values: values,
            current_name: None,
            depth: 1,
            remote_chain: Arc::new(remote_chain),
            remote_chain_base_depth: 1,
            frozen_parent: None,
            scope_barrier: None,
        };
        assert(state.store_view() =~= StoreView::<V>::from_values(
            values@,
            crate::text::views(remote_chain@),
        ));
        ContextStore { state }
    }

    /// A store with a fresh root scope that reads through to what is seen here.
    pub fn fork_child(&self) -> (r: Self)
        ensures
            r@ == self@.fork(),
            r@.wf(),
    {
        proof {
            use_type_invariant(self);
        }
        let state = State {
            scope_chain: None,
            current_values: KeyMap::new(),
            current_name: None,
            depth: 1,
            remote_chain: Arc::clone(&self.state.remote_chain),
            remote_chain_base_depth: 0,
            frozen_parent: self.state.freeze(),
            scope_barrier: None,
        };
        assert(state.store_view() =~= self@.fork());
        ContextStore { state }
    }

    /// A second store that holds the same. Changes to one do not show in the
    /// other.
    pub fn duplicate(&self) -> (r: Self)
        ensures
            r@ == self@,
            r@.wf(),
    {
        proof {
            use_type_invariant(self);
        }
        let state = State {
            scope_chain: share_chain(&self.state.scope_chain),
            current_values: self.state.current_values.share(),
            current_name: copy_name(&self.state.current_name),
            depth: self.state.depth,
            remote_chain: Arc::clone(&self.state.remote_chain),
            remote_chain_base_depth: self.state.remote_chain_base_depth,
            frozen_parent: share_frozen(&self.state.frozen_parent),
            scope_barrier: self.state.scope_barrier,
        };
        assert(state.store_view() =~= self@);
        ContextStore { state }
    }

    /// Move the parts out and leave an empty root scope.
    fn take_state(&mut self) -> (r: State<V>)
        ensures
            r.store_view() == old(self)@,
            r.store_view().wf(),
            final(self)@ == StoreView::<V>::root(),
    {
        proof {
            use_type_invariant(&*self);
        }
        let mut state = State::root();
        std::mem::swap(&mut state, &mut self.state);
        state
    }

    /// Enter a scope. It starts with the values of the keys that the registry
    /// caches. Once the store is full only the depth goes up. Gives back the
    /// depth of the new scope.
    pub fn push_scope<E, D, M>(
        &mut self,
        registry: &Registry<'_, E, D, M>,
        name: Option<String>,
    ) -> (r: usize)
        requires
            old(self)@.current.depth < usize::MAX,
        ensures
            final(self)@ == old(self)@.push(
                crate::registry::cached_set(registry@),
                crate::scope::name_view(name),
            ),
            final(self)@.wf(),
            r == old(self)@.current.depth + 1,
    {
        let mut state = self.take_state();
        let cached = registry.cached_keys();
        let depth = state.push_scope(&cached, name);
        self.state = state;
        depth
    }

    /// Leave the scope at a depth and every scope inside it. The root scope is
    /// not left, nor one that was left before. The values of kept scopes that
    /// were left are given out, to be dropped where that does no harm.
    pub fn pop_scope(&mut self, expected_depth: usize) -> (r: Option<ScopeGarbage<V>>)
        ensures
            final(self)@ == old(self)@.pop(expected_depth as nat),
            final(self)@.wf(),
            r is Some == old(self)@.pops_kept(expected_depth as nat),
            r matches Some(garbage) ==> garbage.old_values@ == crate::scope::merged(
                old(self)@.popped(expected_depth as nat),
            ),
    {
        let mut state = self.take_state();
        let garbage = state.pop_scope(expected_depth);
        self.state = state;
        garbage
    }

    /// Hold a value for a key in the active scope. Gives back the one that it
    /// replaces.
    pub fn set_value(&mut self, key: &'static str, value: Arc<V>) -> (r: Option<Arc<V>>)
        ensures
            final(self)@ == old(self)@.set(key@, value),
            final(self)@.wf(),
            r == crate::key_map::lookup(old(self)@.current.values, key@),
    {
        let mut state = self.take_state();
        let replaced = state.current_values.insert(key, value);
        assert(state.store_view() =~= old(self)@.set(key@, value));
        self.state = state;
        replaced
    }

    /// The value that a key has here.
    pub fn get_value(&self, key: &str) -> (r: Option<Arc<V>>)
        ensures
            r == self@.get(key@),
    {
        proof {
            use_type_invariant(self);
        }
        self.state.get_value(key)
    }

    /// All keys that have a value here, with their values.
    pub fn collect_values(&self) -> (r: KeyMap<Arc<V>>)
        ensures
            r@ == self@.effective(),
    {
        proof {
            use_type_invariant(self);
        }
        self.state.collect_values()
    }

    /// The names that lead here, the most recent ones where there are more than
    /// the limit allows; 0 is no limit.
    pub fn scope_chain(&self, limit: usize) -> (r: Vec<String>)
        ensures
            crate::text::views(r@) == self@.scope_chain(limit as nat),
    {
        proof {
            use_type_invariant(self);
        }
        self.state.scope_chain(limit)
    }

    /// Install names that came from elsewhere at the active scope.
    pub fn set_remote_chain(&mut self, chain: Vec<String>)
        ensures
            final(self)@ == old(self)@.with_remote_chain(crate::text::views(chain@)),
            final(self)@.wf(),
    {
        let mut state = self.take_state();
        state.remote_chain = Arc::new(chain);
        state.remote_chain_base_depth = state.depth;
        assert(state.store_view() =~= old(self)@.with_remote_chain(crate::text::views(chain@)));
        self.state = state;
    }

    /// Hide the scopes around the active one, until it is left.
    pub fn set_scope_barrier(&mut self)
        ensures
            final(self)@ == old(self)@.with_barrier(),
            final(self)@.wf(),
    {
        let mut state = self.take_state();
        state.scope_barrier = Some(state.depth - 1);
        assert(state.store_view() =~= old(self)@.with_barrier());
        self.state = state;
    }

    /// The depth of the active scope; the root scope lies at 1.
    pub fn depth(&self) -> (r: usize)
        ensures
            r == self@.current.depth,
            self@.wf(),
    {
        proof {
            use_type_invariant(self);
        }
        self.state.depth
    }

    /// Whether the active scope itself holds a value for a key.
    pub fn holds_in_scope(&self, key: &str) -> (r: bool)
        ensures
            r == self@.current.values.contains_key(key@),
    {
        self.state.current_values.contains_key(key)
    }

    /// The number of scopes that are kept around the active one.
    pub fn parent_count(&self) -> (r: usize)
        ensures
            r == self@.parents.len(),
    {
        proof {
            use_type_invariant(self);
        }
        chain_len(&self.state.scope_chain)
    }
}

} // verus!
