//! Snapshots: what a context holds at one moment, to be carried elsewhere.

use std::sync::Arc;
use vstd::prelude::*;

use crate::config::Config;
use crate::error::{ContextError, ErrorView};
use crate::key_map::KeyMap;
use crate::registry::{Registrations, Registry};
use crate::store::{ContextStore, StoreView};
use crate::text::copy_list;
use crate::value::{ContextValue, TypedValue};
use crate::wire::{deserialize_entries, deserialize_wire, serialize_from};
use crate::wire_format::{EntryView, WireView};

verus! {

/// Values by key.
pub type Values<V> = Map<Seq<char>, Arc<TypedValue<V>>>;

/// What a snapshot holds.
#[verifier::ext_equal]
#[verifier::reject_recursive_types(V)]
pub struct SnapshotView<V> {
    pub values: Values<V>,
    pub scope_chain: Seq<Seq<char>>,
}

/// An immutable snapshot of a context.
pub struct ContextSnapshot<V> {
    values: Arc<KeyMap<Arc<TypedValue<V>>>>,
    scope_chain: Vec<String>,
}

impl<V> View for ContextSnapshot<V> {
    type V = SnapshotView<V>;

    closed spec fn view(&self) -> SnapshotView<V> {
        SnapshotView { values: self.values@, scope_chain: crate::text::views(self.scope_chain@) }
    }
}

/// The values whose keys do not stay in the process.
pub open spec fn shareable<V, E, D, M>(
    registrations: Registrations<E, D, M>,
    values: Values<V>,
) -> Values<V> {
    Map::new(
        |key: Seq<char>| values.contains_key(key) && !crate::registry::is_local(registrations, key),
        |key: Seq<char>| values[key],
    )
}

/// The values that a context takes over from elsewhere: those of registered
/// keys that do not stay in a process, where they have the registered type.
pub open spec fn admitted<V, E, D, M>(
    registrations: Registrations<E, D, M>,
    values: Values<V>,
) -> Values<V> {
    Map::new(
        |key: Seq<char>|
            values.contains_key(key) && !crate::registry::is_local(registrations, key)
                && crate::registry::has_type(registrations, key, values[key].type_id),
        |key: Seq<char>| values[key],
    )
}

/// Share the values whose keys do not stay in the process; with `check_types`,
/// only those that have the registered type.
fn select_values<V, E, D, M>(
    registry: &Registry<'_, E, D, M>,
    values: &KeyMap<Arc<TypedValue<V>>>,
    check_types: bool,
) -> (r: KeyMap<Arc<TypedValue<V>>>)
    ensures
        r@ == (if check_types {
            admitted(registry@, values@)
        } else {
            shareable(registry@, values@)
        }),
{
    let count = values.len();
    let ghost all = values.entry_seq();
    let mut selected: KeyMap<Arc<TypedValue<V>>> = KeyMap::new();
    let mut i: usize = 0;
    while i < count
        invariant
            i <= count,
            count == all.len(),
            all == values.entry_seq(),
            crate::key_map::distinct_keys(all),
            forall|k: Seq<char>|
                #![trigger selected@.dom().contains(k)]
                selected@.dom().contains(k) ==> values@.dom().contains(k) && selected@[k]
                    == values@[k] && selects(registry@, k, *values@[k], check_types),
            forall|j: int|
                0 <= j < i && selects(registry@, (#[trigger] all[j]).0, *all[j].1, check_types)
                    ==> selected@.dom().contains(all[j].0),
        decreases count - i,
    {
        let key = values.key_at(i);
        let value = values.value_at(i);
        proof {
            crate::key_map::lemma_entry_in_map(all, i as int);
        }
        if !registry.is_local_key(key) && (!check_types || registry.is_valid_value(
            key,
            &value.type_id,
        )) {
            let _ = selected.insert(key, Arc::clone(value));
        }
        i = i + 1;
    }
    proof {
        let goal = if check_types {
            admitted(registry@, values@)
        } else {
            shareable(registry@, values@)
        };
        assert forall|k: Seq<char>|
            #![trigger selected@.dom().contains(k)]
            #![trigger goal.dom().contains(k)]
            selected@.dom().contains(k) == goal.dom().contains(k) && (selected@.dom().contains(k)
                ==> selected@[k] == goal[k]) by {
            if goal.dom().contains(k) {
                let j = crate::key_map::key_position(all, k);
                assert(crate::key_map::has_key(all, k));
                assert(all[j].0 == k);
                crate::key_map::lemma_entry_in_map(all, j);
                assert(selects(registry@, all[j].0, *all[j].1, check_types));
            }
        }
        assert(selected@ =~= goal);
    }
    selected
}

spec fn selects<V, E, D, M>(
    registrations: Registrations<E, D, M>,
    key: Seq<char>,
    value: TypedValue<V>,
    check_types: bool,
) -> bool {
    !crate::registry::is_local(registrations, key) && (check_types ==> crate::registry::has_type(
        registrations,
        key,
        value.type_id,
    ))
}

impl<V> ContextSnapshot<V> {
    /// A snapshot of the given values and scope chain.
    pub fn new(values: KeyMap<Arc<TypedValue<V>>>, scope_chain: Vec<String>) -> (r: Self)
        ensures
            r@ == (SnapshotView { values: values@, scope_chain: crate::text::views(scope_chain@) }),
    {
        ContextSnapshot { values: Arc::new(values), scope_chain }
    }

    /// A snapshot of nothing.
    pub fn empty() -> (r: Self)
        ensures
            r@ == SnapshotView::<V>::empty(),
    {
        let r = ContextSnapshot { values: Arc::new(KeyMap::new()), scope_chain: Vec::new() };
        assert(r@ =~= SnapshotView::<V>::empty());
        r
    }

    /// The scope chain at the time of the snapshot.
    pub fn scope_chain(&self) -> (r: &[String])
        ensures
            crate::text::views(r@) == self@.scope_chain,
    {
        self.scope_chain.as_slice()
    }

    /// The value of a key at the time of the snapshot.
    pub fn get_value(&self, key: &str) -> (r: Option<Arc<TypedValue<V>>>)
        ensures
            r == crate::key_map::lookup(self@.values, key@),
    {
        match self.values.get(key) {
            Some(value) => Some(Arc::clone(value)),
            None => None,
        }
    }

    /// The bytes of this snapshot.
    pub fn serialize<E, D, M>(&self, registry: &Registry<'_, E, D, M>, config: &Config) -> (r: Result<
        Vec<u8>,
        ContextError,
    >) where V: ContextValue, E: Fn(&V) -> Result<Vec<u8>, String>
        requires
            crate::wire::encoders_ready::<V, E, D, M>(registry@),
        ensures
            crate::wire::serializes(
                registry@,
                *config,
                self@.values,
                self@.scope_chain,
                crate::wire::bytes_outcome(r),
            ),
    {
        serialize_from(registry, config, &self.values, copy_list(&self.scope_chain))
    }

    /// The snapshot that bytes stand for.
    pub fn deserialize<E, D, M>(registry: &Registry<'_, E, D, M>, bytes: &[u8]) -> (r: Result<
        Self,
        ContextError,
    >) where D: Fn(&[u8]) -> Result<V, String>
        requires
            crate::wire::decoders_ready::<V, E, D, M>(registry@),
        ensures
            r matches Ok(snapshot) ==> deserializes(registry@, bytes@, snapshot@),
            r matches Err(error) ==> rejects::<V, E, D, M>(registry@, bytes@, error@),
    {
        deserialize_to_snapshot(registry, bytes)
    }

    /// All values of the snapshot.
    pub(crate) fn share_values(&self) -> (r: KeyMap<Arc<TypedValue<V>>>)
        ensures
            r@ == self@.values,
    {
        self.values.share()
    }

    /// A copy of the scope chain.
    pub(crate) fn copy_scope_chain(&self) -> (r: Vec<String>)
        ensures
            crate::text::views(r@) == self@.scope_chain,
    {
        copy_list(&self.scope_chain)
    }

    /// The scope chain, given up by the snapshot.
    pub(crate) fn into_scope_chain(self) -> (r: Vec<String>)
        ensures
            crate::text::views(r@) == self@.scope_chain,
    {
        self.scope_chain
    }
}

impl<V> SnapshotView<V> {
    /// Nothing.
    pub open spec fn empty() -> Self {
        SnapshotView { values: Map::empty(), scope_chain: Seq::empty() }
    }
}

impl<V> Default for ContextSnapshot<V> {
    fn default() -> (r: Self)
        ensures
            r@ == SnapshotView::<V>::empty(),
    {
        ContextSnapshot::empty()
    }
}

impl<V> Clone for ContextSnapshot<V> {
    fn clone(&self) -> (r: Self)
        ensures
            r@ == self@,
    {
        ContextSnapshot {
            values: Arc::clone(&self.values),
            scope_chain: copy_list(&self.scope_chain),
        }
    }
}

/// Whether a snapshot can be what bytes stand for.
pub open spec fn deserializes<V, E, D: Fn(&[u8]) -> Result<V, String>, M>(
    registrations: Registrations<E, D, M>,
    bytes: Seq<u8>,
    snapshot: SnapshotView<V>,
) -> bool {
    exists|entries: Seq<EntryView>, restored: Seq<Option<(Seq<char>, Arc<TypedValue<V>>)>>|
        {
            &&& #[trigger] crate::wire::restores(registrations, entries, restored)
            &&& crate::wire::reads_as(bytes, entries, snapshot.scope_chain)
            &&& snapshot.values == crate::wire::restored_values(restored)
        }
}

/// Whether bytes can be refused with an error: no context can be read from them,
/// or the error is that of the first of its values that cannot be restored.
pub open spec fn rejects<V, E, D: Fn(&[u8]) -> Result<V, String>, M>(
    registrations: Registrations<E, D, M>,
    bytes: Seq<u8>,
    error: ErrorView,
) -> bool {
    ||| crate::wire::unreadable(bytes, error)
    ||| exists|entries: Seq<EntryView>, scope_chain: Seq<Seq<char>>| #[trigger]
        crate::wire::reads_as(bytes, entries, scope_chain) && crate::wire::fails_first::<V, E, D, M>(
            registrations,
            entries,
            error,
        )
}

/// The snapshot that bytes stand for.
pub fn deserialize_to_snapshot<V, E, D: Fn(&[u8]) -> Result<V, String>, M>(
    registry: &Registry<'_, E, D, M>,
    bytes: &[u8],
) -> (r: Result<ContextSnapshot<V>, ContextError>)
    requires
        crate::wire::decoders_ready::<V, E, D, M>(registry@),
    ensures
        r matches Ok(snapshot) ==> deserializes(registry@, bytes@, snapshot@),
        r matches Err(error) ==> rejects::<V, E, D, M>(registry@, bytes@, error@),
{
    match deserialize_wire(bytes) {
        Ok((entries, scope_chain)) => {
            let ghost list = crate::wire_format::entry_list(entries@);
            let ghost chain = crate::text::views(scope_chain@);
            assert(crate::wire::reads_as(bytes@, list, chain));
            match deserialize_entries(registry, &entries) {
                Ok(values) => Ok(ContextSnapshot::new(values, scope_chain)),
                Err(error) => Err(error),
            }
        },
        Err(error) => Err(error),
    }
}

/// A snapshot of a store. Values of keys that stay in the process are left out.
pub fn capture_with_registry<V, E, D, M>(
    store: &ContextStore<TypedValue<V>>,
    registry: &Registry<'_, E, D, M>,
    config: &Config,
) -> (r: ContextSnapshot<V>)
    ensures
        r@ == captured(store@, registry@, *config),
{
    let all = store.collect_values();
    let values = select_values(registry, &all, false);
    let scope_chain = store.scope_chain(config.max_scope_chain_len);
    ContextSnapshot::new(values, scope_chain)
}

/// What a snapshot of a store holds.
pub open spec fn captured<V, E, D, M>(
    store: StoreView<TypedValue<V>>,
    registrations: Registrations<E, D, M>,
    config: Config,
) -> SnapshotView<V> {
    SnapshotView {
        values: shareable(registrations, store.effective()),
        scope_chain: store.scope_chain(config.max_scope_chain_len as nat),
    }
}

/// A store that starts from a snapshot. Values that are not admitted are left
/// out.
pub fn store_from_snapshot_with_registry<V, E, D, M>(
    snapshot: ContextSnapshot<V>,
    registry: &Registry<'_, E, D, M>,
) -> (r: ContextStore<TypedValue<V>>)
    ensures
        r@ == StoreView::from_values(
            admitted(registry@, snapshot@.values),
            snapshot@.scope_chain,
        ),
        r@.wf(),
{
    let values = select_values(registry, &snapshot.values, true);
    ContextStore::from_values_with_chain(values, snapshot.into_scope_chain())
}

/// Values of keys that stay in the process are in no snapshot of a store, and
/// everything else that the store shows is.
pub proof fn law_capture_leaves_out_local_values<V, E, D, M>(
    store: StoreView<TypedValue<V>>,
    registrations: Registrations<E, D, M>,
    config: Config,
    key: Seq<char>,
)
    ensures
        crate::key_map::lookup(captured(store, registrations, config).values, key) == (
        if registrations.contains_key(key) && registrations[key].local_only {
            None
        } else {
            store.get(key)
        }),
        captured(store, registrations, config).scope_chain == store.scope_chain(
            config.max_scope_chain_len as nat,
        ),
{
}

/// A store that starts from a snapshot shows the values of the snapshot whose
/// key is registered with their type and does not stay in the process, and no
/// others, under the snapshot's scope chain.
pub proof fn law_attached_values<V, E, D, M>(
    snapshot: SnapshotView<V>,
    registrations: Registrations<E, D, M>,
    key: Seq<char>,
)
    ensures
        ({
            let store = StoreView::from_values(
                admitted(registrations, snapshot.values),
                snapshot.scope_chain,
            );
            &&& store.get(key) == crate::key_map::lookup(
                admitted(registrations, snapshot.values),
                key,
            )
            &&& store.get(key) == (if snapshot.values.contains_key(key)
                && registrations.contains_key(key) && !registrations[key].local_only
                && registrations[key].type_id == snapshot.values[key].type_id {
                Some(snapshot.values[key])
            } else {
                None
            })
            &&& store.all_names() == snapshot.scope_chain
        }),
{
    crate::store_laws::law_root_values(
        admitted(registrations, snapshot.values),
        snapshot.scope_chain,
        key,
    );
}

/// What is captured and attached is read back: every value that the context
/// showed of a key that is registered with its type and does not stay in the
/// process, under the scope chain of the context.
pub proof fn law_captured_and_attached<V, E, D, M>(
    store: StoreView<TypedValue<V>>,
    registrations: Registrations<E, D, M>,
    config: Config,
    key: Seq<char>,
)
    ensures
        ({
            let snapshot = captured(store, registrations, config);
            let attached = StoreView::from_values(
                admitted(registrations, snapshot.values),
                snapshot.scope_chain,
            );
            &&& attached.get(key) == (if store.get(key) is Some && registrations.contains_key(key)
                && !registrations[key].local_only && registrations[key].type_id == (store.get(
                key,
            )->0).type_id {
                store.get(key)
            } else {
                None
            })
            &&& attached.all_names() == store.scope_chain(config.max_scope_chain_len as nat)
        }),
{
    let snapshot = captured(store, registrations, config);
    law_capture_leaves_out_local_values(store, registrations, config, key);
    law_attached_values(snapshot, registrations, key);
}

/// What is on the wire of a context is what is known of it on the other side:
/// the values of keys that are registered and do not stay in the process.
pub proof fn law_known_values<V, E, D, M>(
    registrations: Registrations<E, D, M>,
    values: Values<V>,
    key: Seq<char>,
)
    ensures
        crate::key_map::lookup(known(registrations, values), key) == (if values.contains_key(key)
            && registrations.contains_key(key) && !registrations[key].local_only {
            Some(values[key])
        } else {
            None
        }),
{
}

/// Whether whatever the encoder of a key makes of a value is read back as that
/// value.
pub open spec fn round_trips<
    V: ContextValue,
    E: Fn(&V) -> Result<Vec<u8>, String>,
    D: Fn(&[u8]) -> Result<V, String>,
    M,
>(registrations: Registrations<E, D, M>, key: Seq<char>, value: Arc<TypedValue<V>>) -> bool {
    forall|
        bytes: Seq<u8>,
        result: Result<Option<(Seq<char>, Arc<TypedValue<V>>)>, ErrorView>,
    |
        #![trigger crate::wire::encodes(registrations, key, *value, Ok(bytes)), crate::wire::decodes(registrations, EntryView { key, key_version: crate::wire::written_version(registrations, key), value: bytes }, result)]
        crate::wire::encodes(registrations, key, *value, Ok(bytes)) && crate::wire::decodes(
            registrations,
            EntryView {
                key,
                key_version: crate::wire::written_version(registrations, key),
                value: bytes,
            },
            result,
        ) ==> result == Ok::<Option<(Seq<char>, Arc<TypedValue<V>>)>, ErrorView>(
            Some((key, value)),
        )
}

/// The values of registered keys that do not stay in the process.
pub open spec fn known<V, E, D, M>(
    registrations: Registrations<E, D, M>,
    values: Values<V>,
) -> Values<V> {
    Map::new(
        |key: Seq<char>|
            values.contains_key(key) && registrations.contains_key(key)
                && !registrations[key].local_only,
        |key: Seq<char>| values[key],
    )
}

/// What the restored entries of distinct keys leave.
proof fn lemma_restored_distinct<V>(
    entries: Seq<EntryView>,
    restored: Seq<Option<(Seq<char>, Arc<TypedValue<V>>)>>,
    key: Seq<char>,
)
    requires
        restored.len() == entries.len(),
        forall|i: int|
            0 <= i < restored.len() ==> ((#[trigger] restored[i]) matches Some((k, v)) ==> k
                == entries[i].key),
        forall|i: int, j: int|
            #![trigger entries[i], entries[j]]
            0 <= i < j < entries.len() ==> entries[i].key != entries[j].key,
    ensures
        crate::wire::restored_values(restored).contains_key(key) ==> exists|i: int|
            0 <= i < restored.len() && (#[trigger] restored[i]) == Some(
                (key, crate::wire::restored_values(restored)[key]),
            ),
        forall|i: int|
            0 <= i < restored.len() && entries[i].key == key && (#[trigger] restored[i]) is Some
                ==> crate::wire::restored_values(restored).contains_key(key)
                && crate::wire::restored_values(restored)[key] == (restored[i]->0).1,
    decreases restored.len(),
{
    if restored.len() > 0 {
        let e = entries.drop_last();
        let r = restored.drop_last();
        assert forall|i: int| 0 <= i < r.len() implies ((#[trigger] r[i]) matches Some((k, v))
            ==> k == e[i].key) by {
            assert(r[i] == restored[i]);
        }
        assert forall|i: int, j: int|
            #![trigger e[i], e[j]]
            0 <= i < j < e.len() implies e[i].key != e[j].key by {
            assert(e[i] == entries[i] && e[j] == entries[j]);
        }
        lemma_restored_distinct(e, r, key);
        let n = restored.len() - 1;
        let before = crate::wire::restored_values(r);
        let after = crate::wire::restored_values(restored);
        assert(restored[n] == restored.last());
        if after.contains_key(key) {
            if restored[n] is Some && (restored[n]->0).0 == key {
                assert(restored[n] == Some((key, after[key])));
            } else {
                assert(before.contains_key(key));
                let i = choose|i: int|
                    0 <= i < r.len() && (#[trigger] r[i]) == Some((key, before[key]));
                assert(restored[i] == Some((key, after[key])));
            }
        }
        assert forall|i: int|
            0 <= i < restored.len() && entries[i].key == key && (#[trigger] restored[i]) is Some
                implies after.contains_key(key) && after[key] == (restored[i]->0).1 by {
            if i < n {
                assert(r[i] == restored[i]);
                assert(e[i] == entries[i]);
                assert(entries[i].key != entries[n].key);
            }
        }
    }
}

/// What was serialized is what is deserialized: the scope chain, and every
/// value of a registered key that may leave the process, provided that the
/// codecs read back what they write.
pub proof fn law_serialized_values_come_back<
    V: ContextValue,
    E: Fn(&V) -> Result<Vec<u8>, String>,
    D: Fn(&[u8]) -> Result<V, String>,
    M,
>(
    registrations: Registrations<E, D, M>,
    config: Config,
    before: SnapshotView<V>,
    bytes: Seq<u8>,
    after: SnapshotView<V>,
)
    requires
        crate::wire::serializes(
            registrations,
            config,
            before.values,
            before.scope_chain,
            Ok(bytes),
        ),
        bytes.len() <= usize::MAX,
        forall|key: Seq<char>| #[trigger]
            before.values.contains_key(key) && registrations.contains_key(key)
                && !registrations[key].local_only ==> round_trips(
                registrations,
                key,
                before.values[key],
            ),
        deserializes(registrations, bytes, after),
    ensures
        after == (SnapshotView {
            values: known(registrations, before.values),
            scope_chain: before.scope_chain,
        }),
{
    let written = choose|entries: Seq<EntryView>| #[trigger]
        crate::wire::entries_for(registrations, before.values, entries) && bytes
            == crate::wire::current_bytes(entries, before.scope_chain);
    let (entries, restored) = choose|
        entries: Seq<EntryView>,
        restored: Seq<Option<(Seq<char>, Arc<TypedValue<V>>)>>,
    |
        {
            &&& #[trigger] crate::wire::restores(registrations, entries, restored)
            &&& crate::wire::reads_as(bytes, entries, after.scope_chain)
            &&& after.values == crate::wire::restored_values(restored)
        };
    lemma_read_is_written(bytes, written, before.scope_chain, entries, after.scope_chain);
    assert forall|i: int| 0 <= i < restored.len() implies #[trigger] restored[i] == (
    if registrations.contains_key(entries[i].key) {
        Some((entries[i].key, before.values[entries[i].key]))
    } else {
        None
    }) by {
        let key = entries[i].key;
        assert(crate::wire::decodes(registrations, entries[i], Ok(restored[i])));
        if registrations.contains_key(key) {
            assert(before.values.contains_key(key));
            assert(entries[i] == EntryView {
                key,
                key_version: crate::wire::written_version(registrations, key),
                value: entries[i].value,
            });
            assert(crate::wire::encodes(
                registrations,
                key,
                *before.values[key],
                Ok(entries[i].value),
            ));
            assert(round_trips(registrations, key, before.values[key]));
        }
    }
    let goal = known(registrations, before.values);
    assert forall|k: Seq<char>|
        #![trigger after.values.dom().contains(k)]
        #![trigger goal.dom().contains(k)]
        after.values.dom().contains(k) == goal.dom().contains(k) && (
        after.values.dom().contains(k) ==> after.values[k] == goal[k]) by {
        lemma_restored_distinct(entries, restored, k);
        if after.values.contains_key(k) {
            let i = choose|i: int|
                0 <= i < restored.len() && (#[trigger] restored[i]) == Some((k, after.values[k]));
            assert(entries[i].key == k);
        }
        if goal.dom().contains(k) {
            assert(before.values.contains_key(k) && !crate::registry::is_local(registrations, k));
            let i = choose|i: int| 0 <= i < entries.len() && (#[trigger] entries[i]).key == k;
            assert(restored[i] is Some);
        }
    }
    assert(after.values =~= goal);
}

/// Bytes in the current format are read as what was written.
proof fn lemma_read_is_written(
    bytes: Seq<u8>,
    written: Seq<EntryView>,
    written_chain: Seq<Seq<char>>,
    read: Seq<EntryView>,
    read_chain: Seq<Seq<char>>,
)
    requires
        bytes.len() <= usize::MAX,
        bytes == crate::wire::current_bytes(written, written_chain),
        crate::wire::reads_as(bytes, read, read_chain),
    ensures
        read == written,
        read_chain == written_chain,
{
    let version = choose|version: u32|
        (version == 1 || version == 2) && #[trigger] crate::wire::starts_with_context(
            bytes,
            version,
            read,
            read_chain,
        );
    crate::wire_format::law_bytes_have_one_meaning(
        WireView { version, entries: read, scope_chain: read_chain },
        WireView {
            version: crate::wire::WIRE_VERSION,
            entries: written,
            scope_chain: written_chain,
        },
        bytes,
    );
}

/// What was serialized is not refused, provided that the codecs read back what
/// they write.
pub proof fn law_serialized_bytes_are_accepted<
    V: ContextValue,
    E: Fn(&V) -> Result<Vec<u8>, String>,
    D: Fn(&[u8]) -> Result<V, String>,
    M,
>(
    registrations: Registrations<E, D, M>,
    config: Config,
    before: SnapshotView<V>,
    bytes: Seq<u8>,
    error: ErrorView,
)
    requires
        crate::wire::serializes(
            registrations,
            config,
            before.values,
            before.scope_chain,
            Ok(bytes),
        ),
        bytes.len() <= usize::MAX,
        forall|key: Seq<char>| #[trigger]
            before.values.contains_key(key) && registrations.contains_key(key)
                && !registrations[key].local_only ==> round_trips(
                registrations,
                key,
                before.values[key],
            ),
    ensures
        !rejects::<V, E, D, M>(registrations, bytes, error),
{
    let written = choose|entries: Seq<EntryView>| #[trigger]
        crate::wire::entries_for(registrations, before.values, entries) && bytes
            == crate::wire::current_bytes(entries, before.scope_chain);
    let ours = WireView {
        version: crate::wire::WIRE_VERSION,
        entries: written,
        scope_chain: before.scope_chain,
    };
    assert(crate::wire_format::wire_bytes(ours).is_prefix_of(bytes));
    if crate::wire::unreadable(bytes, error) {
        let wire = choose|wire: WireView|
            (#[trigger] crate::wire_format::wire_bytes(wire)).is_prefix_of(bytes) && wire.version
                != 1 && wire.version != 2 && error == ErrorView::DeserializationFailed(
                crate::wire::unsupported_text(wire.version),
            );
        crate::wire_format::law_bytes_have_one_meaning(wire, ours, bytes);
        assert(false);
    }
    if rejects::<V, E, D, M>(registrations, bytes, error) {
        let (entries, scope_chain) = choose|entries: Seq<EntryView>, scope_chain: Seq<Seq<char>>|
            #[trigger]
            crate::wire::reads_as(bytes, entries, scope_chain) && crate::wire::fails_first::<
                V,
                E,
                D,
                M,
            >(registrations, entries, error);
        let (i, _restored) = choose|
            i: int,
            restored: Seq<Option<(Seq<char>, Arc<TypedValue<V>>)>>,
        |
            {
                &&& 0 <= i < entries.len()
                &&& #[trigger] crate::wire::restores(registrations, entries.take(i), restored)
                &&& crate::wire::decodes::<V, E, D, M>(registrations, entries[i], Err(error))
            };
        lemma_read_is_written(bytes, written, before.scope_chain, entries, scope_chain);
        let key = entries[i].key;
        assert(before.values.contains_key(key));
        if registrations.contains_key(key) {
            assert(entries[i] == EntryView {
                key,
                key_version: crate::wire::written_version(registrations, key),
                value: entries[i].value,
            });
            assert(crate::wire::encodes(
                registrations,
                key,
                *before.values[key],
                Ok(entries[i].value),
            ));
            assert(round_trips(registrations, key, before.values[key]));
        }
        assert(false);
    }
}

} // verus!
