//! Working with the active context.
//!
//! Every function takes the cell that the context lives in. Where the cell is
//! busy, reads give defaults and writes do nothing.

use std::any::TypeId;
use std::sync::Arc;
use vstd::prelude::*;

use crate::attach::AttachGuard;
use crate::cell::ContextCell;
use crate::config::Config;
use crate::key_map::KeyMap;
use crate::registry::Registry;
use crate::scope::ScopeGuard;
use crate::snapshot::{
    capture_with_registry, store_from_snapshot_with_registry, ContextSnapshot, SnapshotView,
};
use crate::store::{ContextStore, StoreView};
use crate::value::TypedValue;

verus! {

/// Another scope can be entered without the depth running over.
pub open spec fn can_enter<V>(cell: Option<StoreView<TypedValue<V>>>) -> bool {
    cell matches Some(store) ==> store.current.depth < usize::MAX
}

/// The guard of a scope entered in a store; a busy cell gives a guard that does
/// nothing.
pub open spec fn entered_depth<V>(cell: Option<StoreView<TypedValue<V>>>) -> usize {
    match cell {
        Some(store) => (store.current.depth + 1) as usize,
        None => usize::MAX,
    }
}

/// What entering a scope leaves in a cell.
pub open spec fn entered<V>(
    cell: Option<StoreView<TypedValue<V>>>,
    cached: Set<Seq<char>>,
    name: Option<Seq<char>>,
) -> Option<StoreView<TypedValue<V>>> {
    match cell {
        Some(store) => Some(store.push(cached, name)),
        None => None,
    }
}

/// What leaving a scope leaves in a cell. The depth that no scope has is that
/// of a guard that does nothing.
pub open spec fn left<V>(
    cell: Option<StoreView<TypedValue<V>>>,
    expected_depth: usize,
) -> Option<StoreView<TypedValue<V>>> {
    match cell {
        Some(store) => if expected_depth == usize::MAX {
            Some(store)
        } else {
            Some(store.pop(expected_depth as nat))
        },
        None => None,
    }
}

/// A value, where it is of the type asked for.
pub open spec fn of_type<V>(
    value: Option<Arc<TypedValue<V>>>,
    type_id: TypeId,
) -> Option<Arc<TypedValue<V>>> {
    match value {
        Some(found) => if found.type_id == type_id {
            Some(found)
        } else {
            None
        },
        None => None,
    }
}

/// The value of a key in a cell.
pub open spec fn value_in<V>(
    cell: Option<StoreView<TypedValue<V>>>,
    key: Seq<char>,
) -> Option<Arc<TypedValue<V>>> {
    match cell {
        Some(store) => store.get(key),
        None => None,
    }
}

/// What setting a value leaves in a cell.
pub open spec fn with_value<V>(
    cell: Option<StoreView<TypedValue<V>>>,
    key: Seq<char>,
    value: Arc<TypedValue<V>>,
) -> Option<StoreView<TypedValue<V>>> {
    match cell {
        Some(store) => Some(store.set(key, value)),
        None => None,
    }
}

/// The names that lead to the active scope of a cell.
pub open spec fn names_in<V>(
    cell: Option<StoreView<TypedValue<V>>>,
    config: Config,
) -> Seq<Seq<char>> {
    match cell {
        Some(store) => store.scope_chain(config.max_scope_chain_len as nat),
        None => Seq::empty(),
    }
}

/// Enter a scope, named or not.
pub fn enter<V, E, D, M>(
    cell: &mut ContextCell<V>,
    registry: &Registry<'_, E, D, M>,
    name: Option<String>,
) -> (r: ScopeGuard)
    requires
        can_enter(old(cell)@),
    ensures
        final(cell)@ == entered(
            old(cell)@,
            crate::registry::cached_set(registry@),
            crate::scope::name_view(name),
        ),
        r.depth() == entered_depth(old(cell)@),
{
    match cell.store.take() {
        Some(store) => {
            let mut store = store;
            let depth = store.push_scope(registry, name);
            cell.store = Some(store);
            ScopeGuard::new(depth)
        },
        None => ScopeGuard::noop(),
    }
}

/// Enter a named scope. The guard that comes back leaves it.
pub fn push_scope<V, E, D, M>(
    cell: &mut ContextCell<V>,
    registry: &Registry<'_, E, D, M>,
    name: &str,
) -> (r: ScopeGuard)
    requires
        can_enter(old(cell)@),
    ensures
        final(cell)@ == entered(
            old(cell)@,
            crate::registry::cached_set(registry@),
            Some(name@),
        ),
        r.depth() == entered_depth(old(cell)@),
{
    enter(cell, registry, Some(name.to_owned()))
}

/// Leave the scope at a depth. The depth of a guard that does nothing is passed
/// over.
pub fn leave_scope<V>(cell: &mut ContextCell<V>, expected_depth: usize)
    ensures
        final(cell)@ == left(old(cell)@, expected_depth),
{
    if expected_depth == usize::MAX {
        return ;
    }
    match cell.store.take() {
        Some(store) => {
            let mut store = store;
            let _garbage = store.pop_scope(expected_depth);
            // What was left is dropped once the cell holds its store again.
            cell.store = Some(store);
        },
        None => {},
    }
}

/// The names that lead to the active scope.
pub fn scope_chain<V>(cell: &ContextCell<V>, config: &Config) -> (r: Vec<String>)
    ensures
        crate::text::views(r@) == names_in(cell@, *config),
{
    match &cell.store {
        Some(store) => store.scope_chain(config.max_scope_chain_len),
        None => {
            let none: Vec<String> = Vec::new();
            assert(crate::text::views(none@) =~= Seq::<Seq<char>>::empty());
            none
        },
    }
}

/// Set a value in the active scope, as it is stored.
pub fn set_raw_value<V>(cell: &mut ContextCell<V>, key: &'static str, value: Arc<TypedValue<V>>)
    ensures
        final(cell)@ == with_value(old(cell)@, key@, value),
{
    match cell.store.take() {
        Some(store) => {
            let mut store = store;
            let _replaced = store.set_value(key, value);
            // What was replaced is dropped once the cell holds its store again.
            cell.store = Some(store);
        },
        None => {},
    }
}

/// The value of a key, as it is stored.
pub fn get_raw_value<V>(cell: &ContextCell<V>, key: &str) -> (r: Option<Arc<TypedValue<V>>>)
    ensures
        r == value_in(cell@, key@),
{
    match &cell.store {
        Some(store) => store.get_value(key),
        None => None,
    }
}

/// Set a value of a type in the active scope.
pub fn set_context_variable<V>(
    cell: &mut ContextCell<V>,
    key: &'static str,
    type_id: TypeId,
    value: V,
)
    ensures
        exists|stored: Arc<TypedValue<V>>|
            *stored == (TypedValue { type_id, value }) && final(cell)@ == #[trigger] with_value(
                old(cell)@,
                key@,
                stored,
            ),
{
    let stored = Arc::new(TypedValue { type_id, value });
    set_raw_value(cell, key, stored);
}

/// The value of a key, where it has one of the type asked for.
pub fn get_context_variable<V>(cell: &ContextCell<V>, key: &str, type_id: &TypeId) -> (r: Option<
    Arc<TypedValue<V>>,
>)
    ensures
        r == of_type(value_in(cell@, key@), *type_id),
{
    match get_raw_value(cell, key) {
        Some(found) => if found.is_type(type_id) {
            Some(found)
        } else {
            None
        },
        None => None,
    }
}

/// Whether a value is the one that an update of a key starts from.
pub open spec fn update_starts_from<V: Clone>(
    cell: Option<StoreView<TypedValue<V>>>,
    key: Seq<char>,
    type_id: TypeId,
    default_value: V,
    value: V,
) -> bool {
    match of_type(value_in(cell, key), type_id) {
        Some(found) => cloned(found.value, value),
        None => value == default_value,
    }
}

/// The value that an update of a key starts from: its value where it has one of
/// the type, else the default.
pub fn value_or_default<V: Clone>(
    cell: &ContextCell<V>,
    key: &str,
    type_id: &TypeId,
    default_value: V,
) -> (r: V)
    ensures
        update_starts_from(cell@, key@, *type_id, default_value, r),
{
    match get_context_variable(cell, key, type_id) {
        Some(found) => found.value.clone(),
        None => default_value,
    }
}

/// Read a value, change it and write it back. A key without a value starts from
/// the default. The change sees the context as it is.
pub fn update_context_variable<V: Clone, F: FnOnce(&ContextCell<V>, V) -> V>(
    cell: &mut ContextCell<V>,
    key: &'static str,
    type_id: TypeId,
    default_value: V,
    f: F,
)
    requires
        forall|value: V| f.requires((&*old(cell), value)),
    ensures
        exists|before: V, stored: Arc<TypedValue<V>>|
            #![trigger f.ensures((&*old(cell), before), stored.value)]
            {
                &&& update_starts_from(old(cell)@, key@, type_id, default_value, before)
                &&& f.ensures((&*old(cell), before), stored.value)
                &&& stored.type_id == type_id
                &&& final(cell)@ == with_value(old(cell)@, key@, stored)
            },
{
    let value = value_or_default(cell, key, &type_id, default_value);
    let ghost before = value;
    let changed = f(&*cell, value);
    let stored = Arc::new(TypedValue { type_id, value: changed });
    assert(f.ensures((&*old(cell), before), stored.value));
    set_raw_value(cell, key, stored);
}

/// A snapshot of the context, without the values that stay in the process.
pub fn capture<V, E, D, M>(
    cell: &ContextCell<V>,
    registry: &Registry<'_, E, D, M>,
    config: &Config,
) -> (r: ContextSnapshot<V>)
    ensures
        r@ == (match cell@ {
            Some(store) => crate::snapshot::captured(store, registry@, *config),
            None => SnapshotView::<V>::empty(),
        }),
{
    match &cell.store {
        Some(store) => capture_with_registry(store, registry, config),
        None => ContextSnapshot::empty(),
    }
}

/// A store that reads through to this context, and keeps its writes to itself.
pub fn fork<V>(cell: &ContextCell<V>) -> (r: ContextStore<TypedValue<V>>)
    ensures
        r@ == (match cell@ {
            Some(store) => store.fork(),
            None => StoreView::root(),
        }),
{
    match &cell.store {
        Some(store) => store.fork_child(),
        None => ContextStore::new(),
    }
}

/// Make a snapshot the context. The guard that comes back restores what was
/// there.
pub fn attach_snapshot<V, E, D, M>(
    cell: &mut ContextCell<V>,
    registry: &Registry<'_, E, D, M>,
    snapshot: ContextSnapshot<V>,
) -> (r: AttachGuard<V>)
    ensures
        (final(cell)@, r@) == crate::attach::attached(
            old(cell)@,
            StoreView::from_values(
                crate::snapshot::admitted(registry@, snapshot@.values),
                snapshot@.scope_chain,
            ),
        ),
{
    let store = store_from_snapshot_with_registry(snapshot, registry);
    attach_store(cell, store)
}

/// Make a store the context. The guard that comes back restores what was there.
pub fn attach_store<V>(cell: &mut ContextCell<V>, store: ContextStore<TypedValue<V>>) -> (r:
    AttachGuard<V>)
    ensures
        (final(cell)@, r@) == crate::attach::attached(old(cell)@, store@),
{
    let prev = cell.replace(store);
    AttachGuard::new(prev)
}

/// What setting many values leaves in a cell.
pub open spec fn with_values<V>(
    cell: Option<StoreView<TypedValue<V>>>,
    values: crate::snapshot::Values<V>,
) -> Option<StoreView<TypedValue<V>>> {
    match cell {
        Some(store) => Some(
            StoreView {
                current: crate::scope::ScopeView {
                    values: store.current.values.union_prefer_right(values),
                    ..store.current
                },
                ..store
            },
        ),
        None => None,
    }
}

/// Set every value of another store in the active scope. Its scope names are
/// not taken over.
pub fn merge_with<V>(cell: &mut ContextCell<V>, source: ContextStore<TypedValue<V>>)
    ensures
        final(cell)@ == with_values(old(cell)@, source@.effective()),
{
    let values = source.collect_values();
    match cell.store.take() {
        Some(store) => {
            let store = set_all(store, &values);
            cell.store = Some(store);
        },
        None => {},
    }
}

/// Set every value of a map in the active scope of a store.
fn set_all<V>(
    store: ContextStore<TypedValue<V>>,
    values: &KeyMap<Arc<TypedValue<V>>>,
) -> (r: ContextStore<TypedValue<V>>)
    ensures
        Some(r@) == with_values(Some(store@), values@),
{
    let mut store = store;
    let ghost before = store@;
    let count = values.len();
    let ghost all = values.entry_seq();
    let mut i: usize = 0;
    proof {
        assert(all.take(0) =~= Seq::<(Seq<char>, Arc<TypedValue<V>>)>::empty());
        assert(before.current.values.union_prefer_right(
            crate::key_map::entries_map(all.take(0)),
        ) =~= before.current.values);
        assert(with_values(Some(before), crate::key_map::entries_map(all.take(0)))
            =~= Some(before));
    }
    while i < count
        invariant
            i <= count,
            count == all.len(),
            all == values.entry_seq(),
            crate::key_map::distinct_keys(all),
            Some(store@) == with_values(
                Some(before),
                crate::key_map::entries_map(all.take(i as int)),
            ),
        decreases count - i,
    {
        let key = values.key_at(i);
        let value = Arc::clone(values.value_at(i));
        let _ = store.set_value(key, value);
        proof {
            let done = all.take(i as int);
            assert(all.take(i + 1) =~= done.push((key@, value)));
            assert(!crate::key_map::has_key(done, key@)) by {
                if crate::key_map::has_key(done, key@) {
                    let p = crate::key_map::key_position(done, key@);
                    assert(done[p] == all[p]);
                    assert(all[p].0 != all[i as int].0);
                }
            }
            assert(crate::key_map::distinct_keys(done)) by {
                assert forall|a: int, b: int|
                    #![trigger done[a], done[b]]
                    0 <= a < b < done.len() implies done[a].0 != done[b].0 by {
                    assert(done[a] == all[a] && done[b] == all[b]);
                }
            }
            crate::key_map::lemma_push_entry(done, key@, value);
            let so_far = crate::key_map::entries_map(done);
            assert(before.current.values.union_prefer_right(so_far.insert(key@, value))
                =~= before.current.values.union_prefer_right(so_far).insert(key@, value));
        }
        i = i + 1;
    }
    assert(all.take(i as int) =~= all);
    store
}

/// What a store holds once a scope was entered and a snapshot installed there.
/// A snapshot without names leaves the names as they are.
pub open spec fn installed<V>(
    store: StoreView<TypedValue<V>>,
    cached: Set<Seq<char>>,
    name: Option<Seq<char>>,
    snapshot: SnapshotView<V>,
) -> StoreView<TypedValue<V>> {
    let inner = store.push(cached, name);
    let named = if snapshot.scope_chain.len() > 0 {
        inner.with_remote_chain(snapshot.scope_chain)
    } else {
        inner
    };
    with_values(Some(named), snapshot.values)->0
}

/// Enter a scope and install a snapshot there.
pub fn install_snapshot<V, E, D, M>(
    cell: &mut ContextCell<V>,
    registry: &Registry<'_, E, D, M>,
    name: Option<String>,
    snapshot: &ContextSnapshot<V>,
) -> (r: ScopeGuard)
    requires
        can_enter(old(cell)@),
    ensures
        final(cell)@ == (match old(cell)@ {
            Some(store) => Some(
                installed(
                    store,
                    crate::registry::cached_set(registry@),
                    crate::scope::name_view(name),
                    snapshot@,
                ),
            ),
            None => None,
        }),
        r.depth() == entered_depth(old(cell)@),
{
    let guard = enter(cell, registry, name);
    match cell.store.take() {
        Some(store) => {
            let mut store = store;
            let chain = snapshot.copy_scope_chain();
            if chain.len() > 0 {
                store.set_remote_chain(chain);
            }
            let values = snapshot.share_values();
            let store = set_all(store, &values);
            cell.store = Some(store);
        },
        None => {},
    }
    guard
}

/// What a store holds once a scope was entered where nothing is seen but a
/// snapshot. Cached keys are not brought along into that scope.
pub open spec fn replaced_by<V>(
    store: StoreView<TypedValue<V>>,
    snapshot: SnapshotView<V>,
) -> StoreView<TypedValue<V>> {
    with_values(
        Some(
            store.push(Set::empty(), None).with_barrier().with_remote_chain(snapshot.scope_chain),
        ),
        snapshot.values,
    )->0
}

/// Enter a scope that hides the scopes around it, and install a snapshot there.
pub fn replace_in_scope<V>(cell: &mut ContextCell<V>, snapshot: ContextSnapshot<V>) -> (r:
    ScopeGuard)
    requires
        can_enter(old(cell)@),
    ensures
        final(cell)@ == (match old(cell)@ {
            Some(store) => Some(replaced_by(store, snapshot@)),
            None => None,
        }),
        r.depth() == entered_depth(old(cell)@),
{
    let nothing_cached: Registry<'static, (), (), ()> = Registry::empty();
    proof {
        assert(crate::registry::cached_set(nothing_cached@) =~= Set::empty());
    }
    let guard = enter(cell, &nothing_cached, None);
    match cell.store.take() {
        Some(store) => {
            let mut store = store;
            store.set_scope_barrier();
            store.set_remote_chain(snapshot.copy_scope_chain());
            let values = snapshot.share_values();
            let store = set_all(store, &values);
            cell.store = Some(store);
        },
        None => {},
    }
    guard
}

/// Empty the context.
pub fn clear<V>(cell: &mut ContextCell<V>)
    ensures
        final(cell)@ == (match old(cell)@ {
            Some(_) => Some(StoreView::<TypedValue<V>>::root()),
            None => None,
        }),
{
    if cell.store.is_some() {
        cell.store = Some(ContextStore::new());
    }
}

/// The guard of a scope brings back the context as it was when the scope was
/// entered. The one depth left out is that of a guard that does nothing.
pub proof fn law_guard_brings_back<V>(
    cell: Option<StoreView<TypedValue<V>>>,
    cached: Set<Seq<char>>,
    name: Option<Seq<char>>,
)
    requires
        cell matches Some(store) ==> store.wf() && store.current.depth + 1 < usize::MAX,
    ensures
        left(entered(cell, cached, name), entered_depth(cell)) == cell,
{
    match cell {
        Some(store) => {
            crate::store_laws::law_push_then_pop(store, cached, name);
        },
        None => {},
    }
}

/// A typed read gives the value that the key has in the scopes, where it is of
/// that type. What was set is read back with its type and no other, and other
/// keys keep theirs.
pub proof fn law_typed_values_are_read_back<V>(
    store: StoreView<TypedValue<V>>,
    key: Seq<char>,
    value: Arc<TypedValue<V>>,
    type_id: TypeId,
    other: Seq<char>,
)
    ensures
        of_type(value_in(Some(store), key), type_id) == (if store.get(key) is Some && (store.get(
            key,
        )->0).type_id == type_id {
            store.get(key)
        } else {
            None
        }),
        of_type(value_in(with_value(Some(store), key, value), key), type_id) == (
        if value.type_id == type_id {
            Some(value)
        } else {
            None
        }),
        other != key ==> value_in(with_value(Some(store), key, value), other) == value_in(
            Some(store),
            other,
        ),
{
    crate::store_laws::law_set_then_get(store, key, value, other);
}

/// An update starts from a copy of what reading the key with the type gives,
/// wherever in the scopes that value is held, and from the default only where
/// reading gives nothing.
pub proof fn law_update_starts_from_what_is_read<V: Clone>(
    store: StoreView<TypedValue<V>>,
    key: Seq<char>,
    type_id: TypeId,
    default_value: V,
    value: V,
)
    requires
        update_starts_from(Some(store), key, type_id, default_value, value),
    ensures
        store.get(key) is Some && (store.get(key)->0).type_id == type_id ==> cloned(
            (store.get(key)->0).value,
            value,
        ),
        store.get(key) is None || (store.get(key)->0).type_id != type_id ==> value
            == default_value,
{
}

/// An update in a new scope starts from the same value as one in the scope
/// around it; right after a value was set it starts from that value.
pub proof fn law_update_sees_the_scopes_around<V: Clone>(
    store: StoreView<TypedValue<V>>,
    cached: Set<Seq<char>>,
    name: Option<Seq<char>>,
    key: Seq<char>,
    stored: Arc<TypedValue<V>>,
    default_value: V,
    value: V,
)
    requires
        store.wf(),
    ensures
        update_starts_from(
            entered(Some(store), cached, name),
            key,
            stored.type_id,
            default_value,
            value,
        ) == update_starts_from(Some(store), key, stored.type_id, default_value, value),
        update_starts_from(
            entered(with_value(Some(store), key, stored), cached, name),
            key,
            stored.type_id,
            default_value,
            value,
        ) ==> cloned(stored.value, value),
        update_starts_from::<V>(None, key, stored.type_id, default_value, value) ==> value
            == default_value,
{
    crate::store_laws::law_push_keeps_values(store, cached, name, key);
    crate::store_laws::law_set_then_get(store, key, stored, key);
    crate::store_laws::law_push_keeps_values(store.set(key, stored), cached, name, key);
}

/// Entering a scope changes no value that is read, and its name comes last in
/// the chain, as far as the limit allows.
pub proof fn law_entering_keeps_what_is_read<V>(
    store: StoreView<TypedValue<V>>,
    cached: Set<Seq<char>>,
    name: Seq<char>,
    key: Seq<char>,
    config: Config,
)
    requires
        store.wf(),
        store.current.depth <= 1024,
    ensures
        value_in(entered(Some(store), cached, Some(name)), key) == value_in(Some(store), key),
        value_in(entered(Some(store), cached, None), key) == value_in(Some(store), key),
        names_in(entered(Some(store), cached, None), config) == names_in(Some(store), config),
        names_in(entered(Some(store), cached, Some(name)), config).len() > 0,
        names_in(entered(Some(store), cached, Some(name)), config).last() == name,
        config.max_scope_chain_len == 0 || store.all_names().len() < config.max_scope_chain_len
            ==> names_in(entered(Some(store), cached, Some(name)), config) == names_in(
            Some(store),
            config,
        ).push(name),
{
    crate::store_laws::law_push_keeps_values(store, cached, Some(name), key);
    crate::store_laws::law_push_keeps_values(store, cached, None, key);
    crate::store_laws::law_push_adds_name(store, cached, Some(name));
    crate::store_laws::law_push_adds_name(store, cached, None);
    crate::store_laws::law_chain_is_bounded(
        store.push(cached, Some(name)),
        config.max_scope_chain_len as nat,
    );
}

/// A snapshot of all that a context shows has exactly the values that are read
/// there, those included that stay in the process.
pub proof fn law_whole_snapshot_shows_everything<V>(
    store: StoreView<TypedValue<V>>,
    config: Config,
    key: Seq<char>,
)
    ensures
        crate::key_map::lookup(
            crate::sync_ctx::whole_snapshot(Some(store), config).values,
            key,
        ) == store.get(key),
        crate::sync_ctx::whole_snapshot(Some(store), config).scope_chain == store.scope_chain(
            config.max_scope_chain_len as nat,
        ),
{
    crate::store_laws::law_collected_values(store, key);
}

/// A busy cell is left alone by everything, and shows nothing.
pub proof fn law_busy_context_is_left_alone<V>(
    cached: Set<Seq<char>>,
    name: Option<Seq<char>>,
    key: Seq<char>,
    value: Arc<TypedValue<V>>,
    values: crate::snapshot::Values<V>,
    expected_depth: usize,
    config: Config,
)
    ensures
        ({
            let busy: Option<StoreView<TypedValue<V>>> = None;
            &&& entered(busy, cached, name) == busy
            &&& left(busy, expected_depth) == busy
            &&& with_value(busy, key, value) == busy
            &&& with_values(busy, values) == busy
            &&& value_in(busy, key) is None
            &&& names_in(busy, config).len() == 0
            &&& left(busy, entered_depth(busy)) == busy
        }),
{
}

/// Merged values are read afterwards; other keys keep theirs.
pub proof fn law_merged_values_are_read<V>(
    store: StoreView<TypedValue<V>>,
    values: crate::snapshot::Values<V>,
    key: Seq<char>,
)
    ensures
        value_in(with_values(Some(store), values), key) == (if values.contains_key(key) {
            Some(values[key])
        } else {
            store.get(key)
        }),
{
    crate::store_laws::lemma_get_splits(store, key);
    crate::store_laws::lemma_get_splits(with_values(Some(store), values)->0, key);
}

/// Where a context was restored in a scope of its own, what is read there are
/// the restored values, and no others; the scope chain is the restored one; and
/// the guard brings back the context as it was.
pub proof fn law_restored_context_hides_the_rest<V>(
    store: StoreView<TypedValue<V>>,
    snapshot: SnapshotView<V>,
    key: Seq<char>,
)
    requires
        store.wf(),
        !store.is_full(),
    ensures
        crate::store_laws::inside(replaced_by(store, snapshot), store),
        replaced_by(store, snapshot).get(key) == crate::key_map::lookup(snapshot.values, key),
        replaced_by(store, snapshot).all_names() == snapshot.scope_chain,
        left(Some(replaced_by(store, snapshot)), entered_depth(Some(store))) == Some(store),
{
    let inner = store.push(Set::empty(), None);
    let shown = replaced_by(store, snapshot);
    crate::store_laws::law_push_goes_inside(store, Set::empty(), None);
    crate::store_laws::law_cached_keys_are_at_hand(store, Set::empty(), None, key);
    crate::store_laws::law_barrier_hides(inner, key);
    crate::store_laws::lemma_get_splits(inner.with_barrier(), key);
    crate::store_laws::lemma_get_splits(shown, key);
    crate::store_laws::lemma_installed_names(shown);
    crate::store_laws::law_leaving_reverts(shown, store);
}

} // verus!
