//! Turning contexts into bytes and back.

use std::collections::HashMap;
use std::sync::Arc;
use vstd::prelude::*;
use vstd::slice::slice_to_vec;
use vstd::std_specs::iter::IteratorSpec;
use vstd::string::*;

use crate::config::{check_size, Config};
use crate::error::{ContextError, ErrorView};
use crate::key_map::KeyMap;
use crate::registry::{Registrations, Registry};
use crate::text::append_decimal;
use crate::value::{ContextValue, TypedValue};
use crate::wire_format::{decode_wire, encode_wire, EntryView, WireContext, WireEntry, WireView};

verus! {

/// The format version that is written.
pub const WIRE_VERSION: u32 = 2;

/// The outcome of encoding a value, as bytes or as the error's characters.
pub open spec fn bytes_outcome(result: Result<Vec<u8>, ContextError>) -> Result<
    Seq<u8>,
    ErrorView,
> {
    match result {
        Ok(bytes) => Ok(bytes@),
        Err(error) => Err(error@),
    }
}

/// What a custom encoder's answer means.
pub open spec fn custom_outcome(result: Result<Vec<u8>, String>) -> Result<Seq<u8>, ErrorView> {
    match result {
        Ok(bytes) => Ok(bytes@),
        Err(why) => Err(ErrorView::SerializationFailed(why@)),
    }
}

/// The custom encoder of a key, where it has one.
pub open spec fn custom_encoder<E, D, M>(
    registrations: Registrations<E, D, M>,
    key: Seq<char>,
) -> Option<E> {
    if registrations.contains_key(key) {
        registrations[key].serialize_fn
    } else {
        None
    }
}

/// The version that values of a key are written in.
pub open spec fn written_version<E, D, M>(
    registrations: Registrations<E, D, M>,
    key: Seq<char>,
) -> u32 {
    if registrations.contains_key(key) {
        registrations[key].key_version
    } else {
        1
    }
}

/// Whether encoding a value of a key can have this outcome. A custom encoder
/// sees only values of the type that the key is registered with.
pub open spec fn encodes<V: ContextValue, E: Fn(&V) -> Result<Vec<u8>, String>, D, M>(
    registrations: Registrations<E, D, M>,
    key: Seq<char>,
    value: TypedValue<V>,
    result: Result<Seq<u8>, ErrorView>,
) -> bool {
    match custom_encoder(registrations, key) {
        Some(encode) => if value.type_id != registrations[key].type_id {
            result == Err::<Seq<u8>, ErrorView>(
                ErrorView::SerializationFailed("type mismatch during custom serialization"@),
            )
        } else {
            exists|answer: Result<Vec<u8>, String>| #[trigger]
                encode.ensures((&value.value,), answer) && result == custom_outcome(answer)
        },
        None => exists|answer: Result<Vec<u8>, ContextError>| #[trigger]
            call_ensures(V::serialize_value, (&value.value,), answer) && result == bytes_outcome(
                answer,
            ),
    }
}

/// The encoders of a registry can be called with any value.
pub open spec fn encoders_ready<V, E: Fn(&V) -> Result<Vec<u8>, String>, D, M>(
    registrations: Registrations<E, D, M>,
) -> bool {
    forall|key: Seq<char>, value: V|
        #![trigger registrations.contains_key(key), registrations[key].serialize_fn->0.requires((&value,))]
        registrations.contains_key(key) && registrations[key].serialize_fn is Some
            ==> registrations[key].serialize_fn->0.requires((&value,))
}

/// The decoders of a registry can be called with any bytes.
pub open spec fn decoders_ready<V, E, D: Fn(&[u8]) -> Result<V, String>, M>(
    registrations: Registrations<E, D, M>,
) -> bool {
    forall|key: Seq<char>, version: u32, bytes: &[u8]|
        #![trigger registrations[key].deserializers.contains_key(version), registrations[key].deserializers[version].requires((bytes,))]
        registrations.contains_key(key) && registrations[key].deserializers.contains_key(version)
            ==> registrations[key].deserializers[version].requires((bytes,))
}

/// Entries that stand for a set of values: one for each key whose values may
/// leave the process, in no particular order.
pub open spec fn entries_for<V: ContextValue, E: Fn(&V) -> Result<Vec<u8>, String>, D, M>(
    registrations: Registrations<E, D, M>,
    values: Map<Seq<char>, Arc<TypedValue<V>>>,
    entries: Seq<EntryView>,
) -> bool {
    &&& forall|i: int, j: int|
        #![trigger entries[i], entries[j]]
        0 <= i < j < entries.len() ==> entries[i].key != entries[j].key
    &&& forall|i: int|
        0 <= i < entries.len() ==> {
            let key = (#[trigger] entries[i]).key;
            &&& values.contains_key(key)
            &&& !crate::registry::is_local(registrations, key)
            &&& entries[i].key_version == written_version(registrations, key)
            &&& encodes(registrations, key, *values[key], Ok(entries[i].value))
        }
    &&& forall|key: Seq<char>| #[trigger]
        values.contains_key(key) && !crate::registry::is_local(registrations, key) ==> exists|
            i: int,
        |
            0 <= i < entries.len() && (#[trigger] entries[i]).key == key
}

/// The bytes of entries and a scope chain in the current format.
pub open spec fn current_bytes(entries: Seq<EntryView>, scope_chain: Seq<Seq<char>>) -> Seq<u8> {
    crate::wire_format::wire_bytes(WireView { version: WIRE_VERSION, entries, scope_chain })
}

/// Whether serializing values can have this outcome: the bytes of their entries
/// where those are within the limit, the error of a value that could not be
/// encoded, or the size that is over the limit.
pub open spec fn serializes<V: ContextValue, E: Fn(&V) -> Result<Vec<u8>, String>, D, M>(
    registrations: Registrations<E, D, M>,
    config: Config,
    values: Map<Seq<char>, Arc<TypedValue<V>>>,
    scope_chain: Seq<Seq<char>>,
    result: Result<Seq<u8>, ErrorView>,
) -> bool {
    match result {
        Ok(bytes) => config.accepts(bytes.len()) && exists|entries: Seq<EntryView>| #[trigger]
            entries_for(registrations, values, entries) && bytes == current_bytes(
                entries,
                scope_chain,
            ),
        Err(error) => {
            ||| exists|key: Seq<char>| #[trigger]
                values.contains_key(key) && !crate::registry::is_local(registrations, key)
                    && encodes(registrations, key, *values[key], Err(error))
            ||| exists|entries: Seq<EntryView>| #[trigger]
                entries_for(registrations, values, entries) && !config.accepts(
                    current_bytes(entries, scope_chain).len(),
                ) && current_bytes(entries, scope_chain).len() <= usize::MAX && error == (ErrorView::ContextTooLarge {
                    size: current_bytes(entries, scope_chain).len() as usize,
                    limit: config.max_context_size,
                })
        },
    }
}

/// The bytes of one value.
pub fn encode_value<V: ContextValue, E: Fn(&V) -> Result<Vec<u8>, String>, D, M>(
    registry: &Registry<'_, E, D, M>,
    key: &str,
    value: &TypedValue<V>,
) -> (r: Result<Vec<u8>, ContextError>)
    requires
        encoders_ready::<V, E, D, M>(registry@),
    ensures
        encodes(registry@, key@, *value, bytes_outcome(r)),
{
    let encoder = match registry.get_serialization_info(key) {
        Some(info) => match info.serialize_fn {
            Some(encode) => Some((encode, info.type_id)),
            None => None,
        },
        None => None,
    };
    match encoder {
        Some((encode, type_id)) => {
            assert(custom_encoder(registry@, key@) == Some(*encode));
            if !value.is_type(&type_id) {
                return Err(
                    ContextError::SerializationFailed(
                        "type mismatch during custom serialization".to_owned(),
                    ),
                );
            }
            assert(registry@[key@].serialize_fn->0.requires((&value.value,)));
            let answer = encode(&value.value);
            let ghost given = answer;
            let r = match answer {
                Ok(bytes) => Ok(bytes),
                Err(why) => Err(ContextError::SerializationFailed(why)),
            };
            assert(encode.ensures((&value.value,), given));
            assert(bytes_outcome(r) == custom_outcome(given));
            r
        },
        None => value.value.serialize_value(),
    }
}

/// The wire entries of the values that may leave the process.
fn encode_entries<V: ContextValue, E: Fn(&V) -> Result<Vec<u8>, String>, D, M>(
    registry: &Registry<'_, E, D, M>,
    values: &KeyMap<Arc<TypedValue<V>>>,
) -> (r: Result<Vec<WireEntry>, ContextError>)
    requires
        encoders_ready::<V, E, D, M>(registry@),
    ensures
        match r {
            Ok(entries) => entries_for(
                registry@,
                values@,
                crate::wire_format::entry_list(entries@),
            ),
            Err(error) => exists|key: Seq<char>| #[trigger]
                values@.contains_key(key) && !crate::registry::is_local(registry@, key) && encodes(
                    registry@,
                    key,
                    *values@[key],
                    Err(error@),
                ),
        },
{
    let count = values.len();
    let ghost all = values.entry_seq();
    let mut entries: Vec<WireEntry> = Vec::new();
    let ghost mut places: Seq<int> = Seq::empty();
    let mut i: usize = 0;
    while i < count
        invariant
            encoders_ready::<V, E, D, M>(registry@),
            i <= count,
            count == all.len(),
            all == values.entry_seq(),
            crate::key_map::distinct_keys(all),
            places.len() == entries@.len(),
            forall|a: int|
                #![trigger places[a]]
                0 <= a < places.len() ==> {
                    let entry = crate::wire_format::entry_view(entries@[a]);
                    &&& 0 <= places[a] < i
                    &&& entry.key == all[places[a]].0
                    &&& !crate::registry::is_local(registry@, entry.key)
                    &&& entry.key_version == written_version(registry@, entry.key)
                    &&& encodes(registry@, entry.key, *all[places[a]].1, Ok(entry.value))
                },
            forall|a: int, b: int|
                #![trigger places[a], places[b]]
                0 <= a < b < places.len() ==> places[a] < places[b],
            forall|j: int|
                0 <= j < i && !crate::registry::is_local(registry@, (#[trigger] all[j]).0)
                    ==> places.contains(j),
        decreases count - i,
    {
        let key = values.key_at(i);
        let value = values.value_at(i);
        let ghost places_before = places;
        if !registry.is_local_key(key) {
            let key_version: u32 = match registry.get_serialization_info(key) {
                Some(info) => info.key_version,
                None => 1,
            };
            match encode_value(registry, key, value) {
                Ok(bytes) => {
                    entries.push((key.to_owned(), key_version, bytes));
                    proof {
                        places = places.push(i as int);
                        assert(places[places_before.len() as int] == i as int);
                        let entry = crate::wire_format::entry_view(
                            entries@[places_before.len() as int],
                        );
                        assert(entry.key == all[i as int].0);
                    }
                },
                Err(error) => {
                    proof {
                        crate::key_map::lemma_entry_in_map(all, i as int);
                        assert(values@.contains_key(key@));
                    }
                    return Err(error);
                },
            }
        }
        proof {
            crate::registry::lemma_still_contained(places_before, places);
        }
        i = i + 1;
    }
    proof {
        let list = crate::wire_format::entry_list(entries@);
        assert forall|a: int, b: int|
            #![trigger list[a], list[b]]
            0 <= a < b < list.len() implies list[a].key != list[b].key by {
            assert(places[a] < places[b]);
            assert(all[places[a]].0 != all[places[b]].0);
        }
        assert forall|a: int| 0 <= a < list.len() implies {
            let key = (#[trigger] list[a]).key;
            &&& values@.contains_key(key)
            &&& !crate::registry::is_local(registry@, key)
            &&& list[a].key_version == written_version(registry@, key)
            &&& encodes(registry@, key, *values@[key], Ok(list[a].value))
        } by {
            crate::key_map::lemma_entry_in_map(all, places[a]);
        }
        assert forall|key: Seq<char>| #[trigger]
            values@.contains_key(key) && !crate::registry::is_local(registry@, key) implies exists|
            a: int,
        |
            0 <= a < list.len() && (#[trigger] list[a]).key == key by {
            let j = crate::key_map::key_position(all, key);
            assert(crate::key_map::has_key(all, key));
            assert(all[j].0 == key);
            assert(places.contains(j));
            let a = choose|a: int| 0 <= a < places.len() && places[a] == j;
            assert(list[a].key == key);
        }
    }
    Ok(entries)
}

/// Serialize values and a scope chain.
pub fn serialize_from<V: ContextValue, E: Fn(&V) -> Result<Vec<u8>, String>, D, M>(
    registry: &Registry<'_, E, D, M>,
    config: &Config,
    values: &KeyMap<Arc<TypedValue<V>>>,
    scope_chain: Vec<String>,
) -> (r: Result<Vec<u8>, ContextError>)
    requires
        encoders_ready::<V, E, D, M>(registry@),
    ensures
        serializes(
            registry@,
            *config,
            values@,
            crate::text::views(scope_chain@),
            bytes_outcome(r),
        ),
{
    match encode_entries(registry, values) {
        Ok(entries) => {
            let ghost list = crate::wire_format::entry_list(entries@);
            let wire: WireContext = (WIRE_VERSION, entries, scope_chain);
            match encode_wire(&wire) {
                Ok(bytes) => {
                    assert(crate::wire_format::wire_view(wire) == WireView {
                        version: WIRE_VERSION,
                        entries: list,
                        scope_chain: crate::text::views(scope_chain@),
                    });
                    assert(bytes@ == current_bytes(list, crate::text::views(scope_chain@)));
                    match check_size(config, bytes.len()) {
                        Ok(()) => Ok(bytes),
                        Err(error) => Err(error),
                    }
                },
                Err(why) => Err(ContextError::SerializationFailed(why)),
            }
        },
        Err(error) => Err(error),
    }
}

/// Version numbers separated by commas.
pub open spec fn version_list_text(versions: Seq<u32>) -> Seq<char>
    decreases versions.len(),
{
    if versions.len() == 0 {
        Seq::empty()
    } else if versions.len() == 1 {
        crate::text::decimal(versions[0] as nat)
    } else {
        version_list_text(versions.drop_last()) + ", "@ + crate::text::decimal(
            versions.last() as nat,
        )
    }
}

/// What is said of an entry in a version that cannot be read.
pub open spec fn unreadable_text(
    key: Seq<char>,
    version: u32,
    versions: Seq<u32>,
) -> Seq<char> {
    "no deserializer for key '"@ + key + "' wire version "@ + crate::text::decimal(version as nat)
        + " (registered versions: ["@ + version_list_text(versions) + "])"@
}

/// What is said of a context in a format version that cannot be read.
pub open spec fn unsupported_text(version: u32) -> Seq<char> {
    "unsupported wire version: "@ + crate::text::decimal(version as nat)
        + " (this library supports versions 1 and 2)"@
}

/// Whether restoring an entry can have this outcome. Unknown keys, and keys
/// that stay in the process, are passed over.
pub open spec fn decodes<V, E, D: Fn(&[u8]) -> Result<V, String>, M>(
    registrations: Registrations<E, D, M>,
    entry: EntryView,
    result: Result<Option<(Seq<char>, Arc<TypedValue<V>>)>, ErrorView>,
) -> bool {
    if !registrations.contains_key(entry.key) || registrations[entry.key].deserializers
        == Map::<u32, D>::empty() {
        result == Ok::<Option<(Seq<char>, Arc<TypedValue<V>>)>, ErrorView>(None)
    } else if !registrations[entry.key].deserializers.contains_key(entry.key_version) {
        exists|versions: Seq<u32>| #[trigger]
            versions.no_duplicates() && versions.to_set()
                == registrations[entry.key].deserializers.dom() && result == Err::<
                Option<(Seq<char>, Arc<TypedValue<V>>)>,
                ErrorView,
            >(
                ErrorView::DeserializationFailed(
                    unreadable_text(entry.key, entry.key_version, versions),
                ),
            )
    } else {
        exists|bytes: &[u8], answer: Result<V, String>| #[trigger]
            registrations[entry.key].deserializers[entry.key_version].ensures((bytes,), answer)
                && bytes@ == entry.value && match answer {
                Ok(value) => (result matches Ok(Some((key, restored))) && key == entry.key
                    && *restored == (TypedValue {
                    type_id: registrations[entry.key].type_id,
                    value,
                })),
                Err(why) => result == Err::<Option<(Seq<char>, Arc<TypedValue<V>>)>, ErrorView>(
                    ErrorView::DeserializationFailed(why@),
                ),
            }
    }
}

/// The outcome of restoring an entry, with its texts as characters.
pub open spec fn entry_outcome<V>(
    result: Result<Option<(&'static str, Arc<TypedValue<V>>)>, ContextError>,
) -> Result<Option<(Seq<char>, Arc<TypedValue<V>>)>, ErrorView> {
    match result {
        Ok(Some((key, value))) => Ok(Some((key@, value))),
        Ok(None) => Ok(None),
        Err(error) => Err(error@),
    }
}

/// The versions that there is a decoder for, in no particular order.
fn version_list<D>(decoders: &HashMap<u32, D>) -> (r: Vec<u32>)
    ensures
        r@.no_duplicates(),
        r@.to_set() == decoders@.dom(),
{
    broadcast use vstd::std_specs::hash::group_hash_axioms;

    let mut versions: Vec<u32> = Vec::new();
    let known = decoders.keys();
    let ghost all = known.remaining().unref();
    for version in keys: known
        invariant
            keys.seq().unref() == all,
            versions@ == all.take(keys.index()),
    {
        versions.push(*version);
    }
    assert(all.take(all.len() as int) =~= all);
    versions
}

fn append_version_list(out: &mut String, versions: &Vec<u32>)
    ensures
        final(out)@ == old(out)@ + version_list_text(versions@),
{
    let mut i: usize = 0;
    assert(versions@.take(0) =~= Seq::<u32>::empty());
    assert(out@ =~= out@ + version_list_text(versions@.take(0)));
    while i < versions.len()
        invariant
            i <= versions.len(),
            out@ == old(out)@ + version_list_text(versions@.take(i as int)),
        decreases versions.len() - i,
    {
        let ghost done = versions@.take(i as int);
        let ghost next = versions@.take(i + 1);
        assert(next.drop_last() =~= done);
        assert(next.last() == versions@[i as int]);
        if i > 0 {
            out.append(", ");
        }
        append_decimal(out, versions[i] as usize);
        proof {
            if i > 0 {
                assert(out@ =~= old(out)@ + version_list_text(next));
            } else {
                assert(version_list_text(done) =~= Seq::<char>::empty());
                assert(out@ =~= old(out)@ + version_list_text(next));
            }
        }
        i = i + 1;
    }
    assert(versions@.take(i as int) =~= versions@);
}

/// Restore the value of an entry.
pub fn deserialize_entry<V, E, D: Fn(&[u8]) -> Result<V, String>, M>(
    registry: &Registry<'_, E, D, M>,
    entry: &WireEntry,
) -> (r: Result<Option<(&'static str, Arc<TypedValue<V>>)>, ContextError>)
    requires
        decoders_ready::<V, E, D, M>(registry@),
    ensures
        decodes(registry@, crate::wire_format::entry_view(*entry), entry_outcome(r)),
{
    let key_str = entry.0.as_str();
    let reg = match registry.registration(key_str) {
        Some(reg) => reg,
        None => {
            return Ok(None);
        },
    };
    if reg.deserializers.is_empty() {
        return Ok(None);
    }
    match reg.deserializers.get(&entry.1) {
        Some(decode) => {
            let bytes = entry.2.as_slice();
            assert(registry@[key_str@].deserializers[entry.1].requires((bytes,)));
            let answer = decode(bytes);
            let ghost given = answer;
            assert(decode.ensures((bytes,), given));
            match answer {
                Ok(value) => Ok(
                    Some((reg.key, Arc::new(TypedValue { type_id: reg.type_id, value }))),
                ),
                Err(why) => Err(ContextError::DeserializationFailed(why)),
            }
        },
        None => {
            let versions = version_list(&reg.deserializers);
            let mut why: String = String::new();
            why.append("no deserializer for key '");
            why.append(key_str);
            why.append("' wire version ");
            append_decimal(&mut why, entry.1 as usize);
            why.append(" (registered versions: [");
            append_version_list(&mut why, &versions);
            why.append("])");
            assert(why@ =~= unreadable_text(key_str@, entry.1, versions@));
            Err(ContextError::DeserializationFailed(why))
        },
    }
}

/// Whether bytes start with those of a context.
pub open spec fn starts_with_context(
    bytes: Seq<u8>,
    version: u32,
    entries: Seq<EntryView>,
    scope_chain: Seq<Seq<char>>,
) -> bool {
    crate::wire_format::wire_bytes(WireView { version, entries, scope_chain }).is_prefix_of(bytes)
}

/// Bytes that start with a context in a format version that is supported.
pub open spec fn reads_as(
    bytes: Seq<u8>,
    entries: Seq<EntryView>,
    scope_chain: Seq<Seq<char>>,
) -> bool {
    exists|version: u32|
        (version == 1 || version == 2) && #[trigger] starts_with_context(
            bytes,
            version,
            entries,
            scope_chain,
        )
}

/// Bytes that no context can be read from, and the error for them: they start
/// with no context at all, or with one in another format version.
pub open spec fn unreadable(bytes: Seq<u8>, error: ErrorView) -> bool {
    ||| (error is DeserializationFailed && forall|wire: WireView|
        !(#[trigger] crate::wire_format::wire_bytes(wire)).is_prefix_of(bytes))
    ||| exists|wire: WireView|
        (#[trigger] crate::wire_format::wire_bytes(wire)).is_prefix_of(bytes) && wire.version != 1
            && wire.version != 2 && error == ErrorView::DeserializationFailed(
            unsupported_text(wire.version),
        )
}

/// Read a context in a format version that is supported.
pub fn deserialize_wire(bytes: &[u8]) -> (r: Result<(Vec<WireEntry>, Vec<String>), ContextError>)
    ensures
        r matches Ok((entries, scope_chain)) ==> reads_as(
            bytes@,
            crate::wire_format::entry_list(entries@),
            crate::text::views(scope_chain@),
        ),
        r matches Err(error) ==> unreadable(bytes@, error@),
{
    match decode_wire(bytes) {
        Ok(wire) => {
            let ghost view = crate::wire_format::wire_view(wire);
            assert(crate::wire_format::wire_bytes(view).is_prefix_of(bytes@));
            let (version, entries, scope_chain) = wire;
            if version == 1 || version == 2 {
                assert(starts_with_context(bytes@, version, view.entries, view.scope_chain));
                Ok((entries, scope_chain))
            } else {
                let mut why: String = String::new();
                why.append("unsupported wire version: ");
                append_decimal(&mut why, version as usize);
                why.append(" (this library supports versions 1 and 2)");
                assert(why@ =~= unsupported_text(version));
                Err(ContextError::DeserializationFailed(why))
            }
        },
        Err(why) => Err(ContextError::DeserializationFailed(why)),
    }
}

/// The values that restored entries leave: of entries with the same key the
/// last one counts.
pub open spec fn restored_values<V>(
    restored: Seq<Option<(Seq<char>, Arc<TypedValue<V>>)>>,
) -> Map<Seq<char>, Arc<TypedValue<V>>>
    decreases restored.len(),
{
    if restored.len() == 0 {
        Map::empty()
    } else {
        match restored.last() {
            Some((key, value)) => restored_values(restored.drop_last()).insert(key, value),
            None => restored_values(restored.drop_last()),
        }
    }
}

/// Whether restoring these entries can give this list of outcomes.
pub open spec fn restores<V, E, D: Fn(&[u8]) -> Result<V, String>, M>(
    registrations: Registrations<E, D, M>,
    entries: Seq<EntryView>,
    restored: Seq<Option<(Seq<char>, Arc<TypedValue<V>>)>>,
) -> bool {
    &&& restored.len() == entries.len()
    &&& forall|i: int|
        0 <= i < entries.len() ==> decodes(
            registrations,
            #[trigger] entries[i],
            Ok(restored[i]),
        )
}

/// Whether restoring these entries can fail with this error: that of the first
/// entry that cannot be restored.
pub open spec fn fails_first<V, E, D: Fn(&[u8]) -> Result<V, String>, M>(
    registrations: Registrations<E, D, M>,
    entries: Seq<EntryView>,
    error: ErrorView,
) -> bool {
    exists|i: int, restored: Seq<Option<(Seq<char>, Arc<TypedValue<V>>)>>|
        {
            &&& 0 <= i < entries.len()
            &&& #[trigger] restores(registrations, entries.take(i), restored)
            &&& decodes::<V, E, D, M>(registrations, entries[i], Err(error))
        }
}

/// Restore the values of entries, up to the first that cannot be restored.
pub fn deserialize_entries<V, E, D: Fn(&[u8]) -> Result<V, String>, M>(
    registry: &Registry<'_, E, D, M>,
    entries: &Vec<WireEntry>,
) -> (r: Result<KeyMap<Arc<TypedValue<V>>>, ContextError>)
    requires
        decoders_ready::<V, E, D, M>(registry@),
    ensures
        match r {
            Ok(values) => exists|restored: Seq<Option<(Seq<char>, Arc<TypedValue<V>>)>>| #[trigger]
                restores(registry@, crate::wire_format::entry_list(entries@), restored) && values@
                    == restored_values(restored),
            Err(error) => fails_first::<V, E, D, M>(
                registry@,
                crate::wire_format::entry_list(entries@),
                error@,
            ),
        },
{
    let mut values: KeyMap<Arc<TypedValue<V>>> = KeyMap::new();
    let ghost list = crate::wire_format::entry_list(entries@);
    let ghost mut restored: Seq<Option<(Seq<char>, Arc<TypedValue<V>>)>> = Seq::empty();
    let mut i: usize = 0;
    while i < entries.len()
        invariant
            decoders_ready::<V, E, D, M>(registry@),
            i <= entries@.len(),
            list == crate::wire_format::entry_list(entries@),
            restored.len() == i,
            forall|j: int|
                0 <= j < i ==> decodes(registry@, #[trigger] list[j], Ok(restored[j])),
            values@ == restored_values(restored),
        decreases entries@.len() - i,
    {
        let outcome = deserialize_entry(registry, &entries[i]);
        assert(decodes(registry@, list[i as int], entry_outcome(outcome)));
        let ghost before = restored;
        match outcome {
            Ok(Some((key, value))) => {
                let _ = values.insert(key, value);
                proof {
                    restored = restored.push(Some((key@, value)));
                }
            },
            Ok(None) => {
                proof {
                    restored = restored.push(None);
                }
            },
            Err(error) => {
                proof {
                    let done = list.take(i as int);
                    assert forall|j: int| 0 <= j < done.len() implies decodes(
                        registry@,
                        #[trigger] done[j],
                        Ok(restored[j]),
                    ) by {
                        assert(done[j] == list[j]);
                    }
                    assert(restores(registry@, done, restored));
                }
                return Err(error);
            },
        }
        assert(restored.drop_last() =~= before);
        i = i + 1;
    }
    assert(restores(registry@, list, restored));
    Ok(values)
}

/// The bytes of a context with one entry and no scope names, in the current
/// format.
pub fn make_wire_bytes(key: &str, key_version: u32, value_bytes: &[u8]) -> (r: Vec<u8>)
    ensures
        r@ == single_entry_bytes(2, key@, key_version, value_bytes@),
{
    make_wire_bytes_v(2, key, key_version, value_bytes)
}

/// The bytes of a context with one entry and no scope names.
pub open spec fn single_entry_bytes(
    wire_version: u32,
    key: Seq<char>,
    key_version: u32,
    value: Seq<u8>,
) -> Seq<u8> {
    crate::wire_format::wire_bytes(
        WireView {
            version: wire_version,
            entries: seq![EntryView { key, key_version, value }],
            scope_chain: Seq::empty(),
        },
    )
}

/// Like [`make_wire_bytes`], in the format version that is asked for.
pub fn make_wire_bytes_v(
    wire_version: u32,
    key: &str,
    key_version: u32,
    value_bytes: &[u8],
) -> (r: Vec<u8>)
    ensures
        r@ == single_entry_bytes(wire_version, key@, key_version, value_bytes@),
{
    let mut entries: Vec<WireEntry> = Vec::new();
    entries.push((key.to_owned(), key_version, slice_to_vec(value_bytes)));
    let wire: WireContext = (wire_version, entries, Vec::new());
    proof {
        let view = crate::wire_format::wire_view(wire);
        assert(view.entries =~= seq![EntryView { key: key@, key_version, value: value_bytes@ }]);
        assert(view.scope_chain =~= Seq::<Seq<char>>::empty());
    }
    match encode_wire(&wire) {
        Ok(bytes) => bytes,
        Err(_) => Vec::new(),
    }
}

/// Values of keys that stay in the process are never on the wire, and what is
/// on the wire under such a key is passed over.
pub proof fn law_local_values_stay_off_the_wire<
    V: ContextValue,
    E: Fn(&V) -> Result<Vec<u8>, String>,
    D: Fn(&[u8]) -> Result<V, String>,
    M,
>(
    registrations: Registrations<E, D, M>,
    values: Map<Seq<char>, Arc<TypedValue<V>>>,
    entries: Seq<EntryView>,
    i: int,
    foreign: EntryView,
    result: Result<Option<(Seq<char>, Arc<TypedValue<V>>)>, ErrorView>,
)
    requires
        crate::registry::registrations_wf(registrations),
        entries_for(registrations, values, entries),
        0 <= i < entries.len(),
        crate::registry::is_local(registrations, foreign.key),
        decodes(registrations, foreign, result),
    ensures
        !crate::registry::is_local(registrations, entries[i].key),
        result == Ok::<Option<(Seq<char>, Arc<TypedValue<V>>)>, ErrorView>(None),
{
    assert(registrations[foreign.key].wf());
}

/// Entries of unknown keys are passed over.
pub proof fn law_unknown_keys_are_passed_over<V, E, D: Fn(&[u8]) -> Result<V, String>, M>(
    registrations: Registrations<E, D, M>,
    entry: EntryView,
    result: Result<Option<(Seq<char>, Arc<TypedValue<V>>)>, ErrorView>,
)
    requires
        !registrations.contains_key(entry.key),
        decodes(registrations, entry, result),
    ensures
        result == Ok::<Option<(Seq<char>, Arc<TypedValue<V>>)>, ErrorView>(None),
{
}

/// A context in another format version than the supported ones is not read.
pub proof fn law_other_versions_are_refused(
    wire: WireView,
    entries: Seq<EntryView>,
    scope_chain: Seq<Seq<char>>,
)
    requires
        wire.version != 1,
        wire.version != 2,
        crate::wire_format::wire_bytes(wire).len() <= usize::MAX,
    ensures
        !reads_as(crate::wire_format::wire_bytes(wire), entries, scope_chain),
{
    let bytes = crate::wire_format::wire_bytes(wire);
    if reads_as(bytes, entries, scope_chain) {
        let version = choose|version: u32|
            (version == 1 || version == 2) && #[trigger] starts_with_context(
                bytes,
                version,
                entries,
                scope_chain,
            );
        crate::wire_format::law_bytes_have_one_meaning(
            wire,
            WireView { version, entries, scope_chain },
            bytes,
        );
    }
}

/// A single entry made by hand is read as that entry, in both format versions.
pub proof fn law_made_bytes_are_read(
    wire_version: u32,
    key: Seq<char>,
    key_version: u32,
    value: Seq<u8>,
    entries: Seq<EntryView>,
    scope_chain: Seq<Seq<char>>,
)
    requires
        wire_version == 1 || wire_version == 2,
        single_entry_bytes(wire_version, key, key_version, value).len() <= usize::MAX,
    ensures
        reads_as(
            single_entry_bytes(wire_version, key, key_version, value),
            entries,
            scope_chain,
        ) == (entries == seq![EntryView { key, key_version, value }] && scope_chain.len() == 0),
{
    let bytes = single_entry_bytes(wire_version, key, key_version, value);
    let one = seq![EntryView { key, key_version, value }];
    let none = Seq::<Seq<char>>::empty();
    assert(starts_with_context(bytes, wire_version, one, none));
    if scope_chain.len() == 0 {
        assert(scope_chain =~= none);
    }
    if reads_as(bytes, entries, scope_chain) {
        let version = choose|version: u32|
            (version == 1 || version == 2) && #[trigger] starts_with_context(
                bytes,
                version,
                entries,
                scope_chain,
            );
        crate::wire_format::law_bytes_have_one_meaning(
            WireView { version, entries, scope_chain },
            WireView { version: wire_version, entries: one, scope_chain: none },
            bytes,
        );
    }
}

/// Once a decoder for an older version of a key is registered, entries in that
/// version are read with it, and become values of the current type.
pub proof fn law_old_versions_are_migrated<V, E, D: Fn(&[u8]) -> Result<V, String>, M>(
    before: Registrations<E, D, M>,
    current: crate::value::TypeInfo,
    decoder: D,
    entry: EntryView,
    result: Result<Option<(Seq<char>, Arc<TypedValue<V>>)>, ErrorView>,
)
    requires
        crate::registry::registered_migration(
            before,
            entry.key,
            current,
            entry.key_version,
            decoder,
        ).1 is Ok,
        decodes(
            crate::registry::registered_migration(
                before,
                entry.key,
                current,
                entry.key_version,
                decoder,
            ).0,
            entry,
            result,
        ),
    ensures
        exists|bytes: &[u8], answer: Result<V, String>| #[trigger]
            decoder.ensures((bytes,), answer) && bytes@ == entry.value && match answer {
                Ok(value) => result is Ok && result->Ok_0 is Some && (result->Ok_0->0).0
                    == entry.key && *(result->Ok_0->0).1 == (TypedValue {
                    type_id: current.id,
                    value,
                }),
                Err(why) => result is Err && result->Err_0 == ErrorView::DeserializationFailed(why@),
            },
{
    let after = crate::registry::registered_migration(
        before,
        entry.key,
        current,
        entry.key_version,
        decoder,
    ).0;
    assert(after[entry.key].deserializers.contains_key(entry.key_version));
    assert(after[entry.key].deserializers[entry.key_version] == decoder);
    assert(!Map::<u32, D>::empty().contains_key(entry.key_version));
}

} // verus!
