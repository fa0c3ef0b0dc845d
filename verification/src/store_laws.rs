//! What always holds of stores, whatever is done with them.

use std::sync::Arc;
use vstd::prelude::*;

use crate::scope::ScopeView;
use crate::store::{StoreView, MAX_SCOPE_DEPTH};

verus! {

/// A store lies inside another: it came out of it by entering a scope and by
/// whatever was done there since, without leaving that scope.
pub open spec fn inside<V>(inner: StoreView<V>, outer: StoreView<V>) -> bool {
    let extra = inner.parents.len() - outer.parents.len();
    &&& inner.wf()
    &&& outer.wf()
    &&& inner.current.depth > outer.current.depth
    &&& inner.frozen == outer.frozen
    &&& extra >= 1
    &&& inner.parents[extra - 1] == outer.current
    &&& inner.parents.skip(extra) == outer.parents
}

/// Entering a scope keeps the store sound.
pub proof fn law_push_keeps_wf<V>(
    store: StoreView<V>,
    cached: Set<Seq<char>>,
    name: Option<Seq<char>>,
)
    requires
        store.wf(),
        store.current.depth < usize::MAX,
    ensures
        store.push(cached, name).wf(),
{
    let after = store.push(cached, name);
    if !store.is_full() {
        assert forall|i: int| 0 <= i < after.parents.len() implies (
        #[trigger] after.parents[i]).depth == after.parents.len() - i
            && after.parents[i].in_order() by {
            if i > 0 {
                assert(after.parents[i] == store.parents[i - 1]);
            }
        }
    }
}

/// Leaving a scope keeps the store sound.
pub proof fn law_pop_keeps_wf<V>(store: StoreView<V>, expected: nat)
    requires
        store.wf(),
    ensures
        store.pop(expected).wf(),
{
    if store.pops_kept(expected) {
        let count = store.pop_count(expected);
        let after = store.pop(expected);
        assert(store.parents[count].depth == expected - 1);
        assert forall|i: int| 0 <= i < after.parents.len() implies (
        #[trigger] after.parents[i]).depth == after.parents.len() - i
            && after.parents[i].in_order() by {
            assert(after.parents[i] == store.parents[count + 1 + i]);
        }
    }
}

/// Entering a scope and leaving it again changes nothing.
pub proof fn law_push_then_pop<V>(
    store: StoreView<V>,
    cached: Set<Seq<char>>,
    name: Option<Seq<char>>,
)
    requires
        store.wf(),
    ensures
        store.push(cached, name).pop(store.current.depth + 1) == store,
{
    let after = store.push(cached, name);
    if store.is_full() {
        assert(after.pop(store.current.depth + 1) =~= store);
    } else {
        assert(after.parents.skip(1) =~= store.parents);
        assert(after.pop(store.current.depth + 1) =~= store);
    }
}

/// Leaving a scope brings back the store as it was when the scope was entered,
/// whatever was done inside: values set there, names and barriers installed
/// there and scopes entered there are gone.
pub proof fn law_leaving_reverts<V>(inner: StoreView<V>, outer: StoreView<V>)
    requires
        inside(inner, outer),
    ensures
        inner.pop(outer.current.depth + 1) == outer,
{
    let extra = inner.parents.len() - outer.parents.len();
    assert(outer.current.depth <= MAX_SCOPE_DEPTH) by {
        assert(inner.parents[extra - 1].depth == inner.parents.len() - (extra - 1));
    }
    assert(inner.pop_count(outer.current.depth + 1) == extra - 1);
    assert(inner.pop(outer.current.depth + 1) =~= outer);
}

/// A scope that is really kept lies inside the one it was entered from.
pub proof fn law_push_goes_inside<V>(
    store: StoreView<V>,
    cached: Set<Seq<char>>,
    name: Option<Seq<char>>,
)
    requires
        store.wf(),
        !store.is_full(),
    ensures
        inside(store.push(cached, name), store),
{
    law_push_keeps_wf(store, cached, name);
    assert(store.push(cached, name).parents.skip(1) =~= store.parents);
}

/// Whatever is done inside a scope stays inside it: setting values, installing
/// names or a barrier, entering further scopes, and leaving those.
pub proof fn law_work_stays_inside<V>(
    inner: StoreView<V>,
    outer: StoreView<V>,
    key: Seq<char>,
    value: Arc<V>,
    chain: Seq<Seq<char>>,
    cached: Set<Seq<char>>,
    name: Option<Seq<char>>,
    expected: nat,
)
    requires
        inside(inner, outer),
    ensures
        inside(inner.set(key, value), outer),
        inside(inner.with_remote_chain(chain), outer),
        inside(inner.with_barrier(), outer),
        inner.current.depth < usize::MAX ==> inside(inner.push(cached, name), outer),
        expected > outer.current.depth + 1 ==> inside(inner.pop(expected), outer),
{
    let extra = inner.parents.len() - outer.parents.len();
    if inner.current.depth < usize::MAX {
        law_push_keeps_wf(inner, cached, name);
        let after = inner.push(cached, name);
        if !inner.is_full() {
            assert(after.parents[extra] == inner.parents[extra - 1]);
            assert(after.parents.skip(extra + 1) =~= inner.parents.skip(extra));
        }
    }
    if expected > outer.current.depth + 1 {
        law_pop_keeps_wf(inner, expected);
        let after = inner.pop(expected);
        if inner.pops_kept(expected) {
            let count = inner.pop_count(expected);
            let left = after.parents.len() - outer.parents.len();
            assert(inner.parents[extra - 1].depth == outer.current.depth);
            assert(left == extra - (count + 1));
            assert(after.parents[left - 1] == inner.parents[extra - 1]);
            assert(after.parents.skip(left) =~= inner.parents.skip(extra));
        }
    }
}

/// Once a scope was left, leaving it or a scope inside it again does nothing.
pub proof fn law_late_guard_does_nothing<V>(store: StoreView<V>, first: nat, second: nat)
    requires
        store.wf(),
        1 < first <= second,
    ensures
        store.pop(first).pop(second) == store.pop(first),
{
    if store.current.depth >= first && first <= MAX_SCOPE_DEPTH + 1 {
        assert(store.parents[store.pop_count(first)].depth == first - 1);
    }
}

/// A value that was set is read back, and no other key is touched.
pub proof fn law_set_then_get<V>(
    store: StoreView<V>,
    key: Seq<char>,
    value: Arc<V>,
    other: Seq<char>,
)
    ensures
        store.set(key, value).get(key) == Some(value),
        other != key ==> store.set(key, value).get(other) == store.get(other),
{
    lemma_get_splits(store, key);
    lemma_get_splits(store.set(key, value), key);
    lemma_get_splits(store, other);
    lemma_get_splits(store.set(key, value), other);
}

/// Setting a value changes no name, and leaves the depth as it is.
pub proof fn law_set_keeps_names<V>(store: StoreView<V>, key: Seq<char>, value: Arc<V>)
    ensures
        store.set(key, value).all_names() == store.all_names(),
        store.set(key, value).current.depth == store.current.depth,
{
    let after = store.set(key, value);
    let a = seq![after.current] + after.visible_parents();
    let b = seq![store.current] + store.visible_parents();
    assert(a.drop_first() =~= b.drop_first());
    assert(after.all_names() =~= store.all_names());
}

/// Leaving a scope that is there goes to the one around it; the root scope, and
/// a scope that is not there, are not left.
pub proof fn law_leaving_goes_to_the_scope_around<V>(store: StoreView<V>, expected: nat)
    requires
        store.wf(),
    ensures
        1 < expected <= store.current.depth ==> store.pop(expected).current.depth == expected - 1,
        expected <= 1 || store.current.depth < expected ==> store.pop(expected) == store,
{
    if store.pops_kept(expected) {
        assert(store.parents[store.pop_count(expected)].depth == expected - 1);
    }
}

/// An empty store shows nothing: no value, no name, at the first depth.
pub proof fn law_empty_store_shows_nothing<V>(key: Seq<char>)
    ensures
        StoreView::<V>::root().wf(),
        StoreView::<V>::root().get(key) is None,
        StoreView::<V>::root().all_names() == Seq::<Seq<char>>::empty(),
        StoreView::<V>::root().current.depth == 1,
{
    let store = StoreView::<V>::root();
    lemma_get_splits(store, key);
    assert(store.visible_parents() + store.visible_frozen() =~= Seq::<ScopeView<V>>::empty());
    let own = seq![store.current] + store.visible_parents();
    assert(own.drop_first() =~= Seq::<ScopeView<V>>::empty());
    reveal_with_fuel(crate::scope::names_above, 2);
    assert(store.all_names() =~= Seq::<Seq<char>>::empty());
}

/// Names that came from elsewhere do not touch values, and scopes entered
/// afterwards add theirs.
pub proof fn law_remote_names_touch_no_value<V>(
    store: StoreView<V>,
    chain: Seq<Seq<char>>,
    cached: Set<Seq<char>>,
    name: Seq<char>,
    key: Seq<char>,
)
    requires
        store.wf(),
        !store.is_full(),
        store.frozen.len() == 0,
    ensures
        store.with_remote_chain(chain).get(key) == store.get(key),
        store.with_remote_chain(chain).all_names() == chain,
        store.current.depth < 1024 ==> store.with_remote_chain(chain).push(
            cached,
            Some(name),
        ).all_names() == chain.push(name),
{
    let after = store.with_remote_chain(chain);
    lemma_get_splits(store, key);
    lemma_get_splits(after, key);
    lemma_installed_names(after);
    assert(after.all_names() =~= chain);
    law_push_adds_name(after, cached, Some(name));
}

/// A lookup goes to the active scope first and then to the scopes around.
pub(crate) proof fn lemma_get_splits<V>(store: StoreView<V>, key: Seq<char>)
    ensures
        store.get(key) == (if store.current.values.contains_key(key) {
            Some(store.current.values[key])
        } else {
            crate::scope::find(store.visible_parents() + store.visible_frozen(), key)
        }),
{
    let rest = store.visible_parents() + store.visible_frozen();
    assert(store.layers() =~= seq![store.current] + rest);
    assert(store.layers().drop_first() =~= rest);
}

/// A new scope shows the values of the scope that it was entered from, whether
/// keys are cached or not.
pub proof fn law_push_keeps_values<V>(
    store: StoreView<V>,
    cached: Set<Seq<char>>,
    name: Option<Seq<char>>,
    key: Seq<char>,
)
    requires
        store.wf(),
    ensures
        store.push(cached, name).get(key) == store.get(key),
{
    let after = store.push(cached, name);
    lemma_get_splits(after, key);
    lemma_get_splits(store, key);
    if !store.is_full() {
        let hidden = store.hidden_depth();
        assert(after.parents.drop_first() =~= store.parents);
        assert(after.visible_parents() == seq![store.current] + store.visible_parents());
        assert(after.visible_parents() + after.visible_frozen() =~= store.layers());
    }
}

/// A cached key has its value in a new scope itself.
pub proof fn law_cached_keys_are_at_hand<V>(
    store: StoreView<V>,
    cached: Set<Seq<char>>,
    name: Option<Seq<char>>,
    key: Seq<char>,
)
    requires
        store.wf(),
        !store.is_full(),
    ensures
        ({
            let values = store.push(cached, name).current.values;
            &&& values.contains_key(key) == (cached.contains(key) && store.get(key) is Some)
            &&& values.contains_key(key) ==> store.get(key) == Some(values[key])
        }),
{
}

/// Entering a named scope adds its name to the end of the chain; an unnamed
/// scope does not show there.
pub proof fn law_push_adds_name<V>(
    store: StoreView<V>,
    cached: Set<Seq<char>>,
    name: Option<Seq<char>>,
)
    requires
        store.wf(),
        !store.is_full(),
    ensures
        store.push(cached, name).all_names() == (match name {
            Some(text) => store.all_names().push(text),
            None => store.all_names(),
        }),
{
    let after = store.push(cached, name);
    let base = store.current.remote_base as int;
    assert(after.parents.drop_first() =~= store.parents);
    assert(after.visible_parents() == seq![store.current] + store.visible_parents());
    let before_scopes = seq![store.current] + store.visible_parents();
    let after_scopes = seq![after.current] + after.visible_parents();
    assert(after_scopes.drop_first() =~= before_scopes);
    assert(crate::scope::names_above(after_scopes, base) == crate::scope::names_above(
        before_scopes,
        base,
    ) + crate::scope::name_above(after.current, base));
    match name {
        Some(text) => {
            assert(after.all_names() =~= store.all_names().push(text));
        },
        None => {
            assert(after.all_names() =~= store.all_names());
        },
    }
}

/// Scopes that lie no deeper than a limit have no names above it, whichever of
/// them are hidden.
proof fn lemma_no_names_above<V>(scopes: Seq<ScopeView<V>>, hidden: int, limit: int)
    requires
        forall|i: int| 0 <= i < scopes.len() ==> (#[trigger] scopes[i]).depth <= limit,
    ensures
        crate::scope::names_above(crate::scope::visible(scopes, hidden), limit) == Seq::<
            Seq<char>,
        >::empty(),
    decreases scopes.len(),
{
    let seen = crate::scope::visible(scopes, hidden);
    if scopes.len() > 0 && scopes[0].depth > hidden {
        let rest = scopes.drop_first();
        assert forall|i: int| 0 <= i < rest.len() implies (#[trigger] rest[i]).depth <= limit by {
            assert(rest[i] == scopes[i + 1]);
        }
        lemma_no_names_above(rest, hidden, limit);
        assert(seen.drop_first() =~= crate::scope::visible(rest, hidden));
        assert(crate::scope::names_above(seen, limit) =~= Seq::<Seq<char>>::empty());
    }
}

/// In a scope where a chain from elsewhere was installed, no name of the store's
/// own scopes shows: the chain is the installed one, and the names that are read
/// through to.
pub proof fn lemma_installed_names<V>(store: StoreView<V>)
    requires
        store.wf(),
        store.current.remote_base == store.current.depth,
    ensures
        store.all_names() == store.current.remote_chain + crate::scope::names_above(
            store.visible_frozen(),
            -1,
        ),
{
    let base = store.current.depth as int;
    let own = seq![store.current] + store.visible_parents();
    assert forall|i: int| 0 <= i < store.parents.len() implies (#[trigger] store.parents[i]).depth
        <= base by {}
    lemma_no_names_above(store.parents, store.hidden_depth(), base);
    assert(own.drop_first() =~= store.visible_parents());
    assert(crate::scope::names_above(own, base) =~= Seq::<Seq<char>>::empty());
    assert(store.all_names() =~= store.current.remote_chain + crate::scope::names_above(
        store.visible_frozen(),
        -1,
    ));
}

/// The scope chain never has more names than the limit allows, and what is cut
/// off are the oldest names.
pub proof fn law_chain_is_bounded<V>(store: StoreView<V>, limit: nat)
    ensures
        limit > 0 ==> store.scope_chain(limit).len() <= limit,
        limit > 0 && store.all_names().len() > limit ==> store.scope_chain(limit).len() == limit,
        store.scope_chain(limit).len() <= store.all_names().len(),
        store.scope_chain(limit) == store.all_names().skip(
            store.all_names().len() - store.scope_chain(limit).len(),
        ),
        limit == 0 || store.all_names().len() <= limit ==> store.scope_chain(limit)
            == store.all_names(),
{
    assert(store.all_names().skip(0) =~= store.all_names());
}

/// However deep scopes are entered, only a bounded number is kept; those beyond
/// hold no values and no name of their own.
pub proof fn law_depth_is_bounded<V>(
    store: StoreView<V>,
    cached: Set<Seq<char>>,
    name: Option<Seq<char>>,
)
    requires
        store.wf(),
    ensures
        store.parents.len() <= MAX_SCOPE_DEPTH,
        store.parents.len() <= 1024,
        store.is_full() <==> store.current.depth > 1024,
        store.current.depth <= 1024 ==> store.push(cached, name).parents.len()
            == store.parents.len() + 1 && store.push(cached, name).parents[0] == store.current
            && store.push(cached, name).current.name == name,
        store.push(cached, name).current.depth == store.current.depth + 1,
        store.current.depth > 1024 ==> store.push(cached, name) == (StoreView {
            current: ScopeView {
                depth: store.current.depth + 1,
                ..store.current
            },
            ..store
        }),
{
}

/// A fork starts with an empty scope, and reads every value that is read in the
/// store that it came from: also those which that store inherited, and none
/// which it hides.
pub proof fn law_fork_has_the_same_values<V>(store: StoreView<V>, key: Seq<char>)
    requires
        store.wf(),
    ensures
        store.fork().wf(),
        store.fork().current.depth == 1,
        store.fork().current.values == Map::<Seq<char>, Arc<V>>::empty(),
        store.fork().get(key) == store.get(key),
{
    let child = store.fork();
    let own = seq![store.current] + store.visible_parents();
    lemma_get_splits(child, key);
    assert(child.visible_parents() + child.visible_frozen() =~= child.frozen);
    crate::frozen::lemma_listed_values(own, store.current.remote_base as int, key);
    crate::scope::lemma_find_concat(store.own_layers(), store.visible_frozen(), key);
    crate::scope::lemma_find_concat(own, store.visible_frozen(), key);
}

/// A fork has the scope chain of the store that it came from.
pub proof fn law_fork_has_the_same_chain<V>(store: StoreView<V>, limit: nat)
    requires
        store.wf(),
    ensures
        store.fork().all_names() == store.all_names(),
        store.fork().scope_chain(limit) == store.scope_chain(limit),
{
    let child = store.fork();
    let base = store.current.remote_base as int;
    let own = seq![store.current] + store.visible_parents();
    crate::frozen::lemma_listed_names(own, base);
    crate::scope::lemma_names_concat(store.own_layers(), store.visible_frozen(), -1);
    let root = seq![child.current] + child.visible_parents();
    assert(root.drop_first() =~= Seq::<ScopeView<V>>::empty());
    reveal_with_fuel(crate::scope::names_above, 2);
    assert(crate::scope::names_above(root, 0) =~= Seq::<Seq<char>>::empty());
    assert(child.all_names() =~= store.all_names());
}

/// Behind a barrier only the values of the active scope are seen.
pub proof fn law_barrier_hides<V>(store: StoreView<V>, key: Seq<char>)
    requires
        store.wf(),
    ensures
        store.with_barrier().get(key) == crate::key_map::lookup(store.current.values, key),
{
    let after = store.with_barrier();
    lemma_get_splits(after, key);
    assert(after.visible_parents() =~= Seq::<ScopeView<V>>::empty());
    assert(after.visible_parents() + after.visible_frozen() =~= Seq::<ScopeView<V>>::empty());
}

/// What is collected from a store is what looking up each key gives.
pub proof fn law_collected_values<V>(store: StoreView<V>, key: Seq<char>)
    ensures
        crate::key_map::lookup(store.effective(), key) == store.get(key),
{
}

/// A store that starts from values shows exactly these, and the names that came
/// with them.
pub proof fn law_root_values<V>(
    values: Map<Seq<char>, Arc<V>>,
    remote_chain: Seq<Seq<char>>,
    key: Seq<char>,
)
    ensures
        StoreView::from_values(values, remote_chain).get(key) == crate::key_map::lookup(
            values,
            key,
        ),
        StoreView::from_values(values, remote_chain).all_names() == remote_chain,
{
    let store = StoreView::from_values(values, remote_chain);
    assert(store.layers() =~= seq![store.current]);
    assert(store.layers().drop_first() =~= Seq::<ScopeView<V>>::empty());
    reveal_with_fuel(crate::scope::find, 2);
    reveal_with_fuel(crate::scope::names_above, 2);
    let own = seq![store.current] + store.visible_parents();
    assert(own.drop_first() =~= Seq::<ScopeView<V>>::empty());
    assert(store.all_names() =~= remote_chain);
}

/// Leaving a scope loses nothing: the scopes that are given up and those that are
/// left are together those that were there.
pub proof fn law_left_scopes_are_given_out<V>(store: StoreView<V>, expected: nat)
    requires
        store.wf(),
        1 < expected <= store.current.depth,
        expected <= 1025,
    ensures
        store.popped(expected) + seq![store.pop(expected).current] + store.pop(expected).parents
            == seq![store.current] + store.parents,
        store.pop(expected).frozen == store.frozen,
{
    let count = store.pop_count(expected);
    assert(store.popped(expected) + seq![store.pop(expected).current] + store.pop(expected).parents
        =~= seq![store.current] + store.parents);
}

/// The values that come out with scopes are those of the keys that one of these
/// scopes holds; of several values of a key that of the outermost scope.
pub proof fn law_given_out_values<V>(scopes: Seq<ScopeView<V>>, key: Seq<char>, i: int)
    ensures
        crate::scope::merged(scopes).contains_key(key) <==> exists|a: int|
            0 <= a < scopes.len() && (#[trigger] scopes[a]).values.contains_key(key),
        (0 <= i < scopes.len() && scopes[i].values.contains_key(key) && forall|b: int|
            i < b < scopes.len() ==> !(#[trigger] scopes[b]).values.contains_key(key))
            ==> crate::scope::merged(scopes)[key] == scopes[i].values[key],
    decreases scopes.len(),
{
    if scopes.len() > 0 {
        let before = scopes.drop_last();
        let n = scopes.len() - 1;
        law_given_out_values(before, key, i);
        assert(scopes[n] == scopes.last());
        if exists|a: int| 0 <= a < before.len() && (#[trigger] before[a]).values.contains_key(key) {
            let a = choose|a: int|
                0 <= a < before.len() && (#[trigger] before[a]).values.contains_key(key);
            assert(scopes[a] == before[a]);
        }
        if exists|a: int| 0 <= a < scopes.len() && (#[trigger] scopes[a]).values.contains_key(key) {
            let a = choose|a: int|
                0 <= a < scopes.len() && (#[trigger] scopes[a]).values.contains_key(key);
            if a < n {
                assert(before[a] == scopes[a]);
            }
        }
        if 0 <= i < n && scopes[i].values.contains_key(key) && forall|b: int|
            i < b < scopes.len() ==> !(#[trigger] scopes[b]).values.contains_key(key) {
            assert(before[i] == scopes[i]);
            assert forall|b: int| i < b < before.len() implies !(
            #[trigger] before[b]).values.contains_key(key) by {
                assert(before[b] == scopes[b]);
            }
            assert(!scopes[n].values.contains_key(key));
        }
    }
}

} // verus!
