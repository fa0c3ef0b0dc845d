//! What goes onto the wire, and what is read from it.

use std::sync::Arc;
use vstd::prelude::*;

use crate::config::Config;
use crate::error::ErrorView;
use crate::registry::{RegistrationOptions, Registrations};
use crate::snapshot::SnapshotView;
use crate::value::{ContextValue, TypeInfo, TypedValue};
use crate::wire_format::{EntryView, WireView};

verus! {

/// Whether a decoder can read this from an entry: its answer for the bytes, as a
/// value of a type under the key, or as the error.
pub open spec fn read_by<V, D: Fn(&[u8]) -> Result<V, String>>(
    decoder: D,
    entry: EntryView,
    type_id: std::any::TypeId,
    result: Result<Option<(Seq<char>, Arc<TypedValue<V>>)>, ErrorView>,
) -> bool {
    exists|bytes: &[u8], answer: Result<V, String>| #[trigger]
        decoder.ensures((bytes,), answer) && bytes@ == entry.value && match answer {
            Ok(read) => result is Ok && result->Ok_0 is Some && (result->Ok_0->0).0 == entry.key
                && *(result->Ok_0->0).1 == (TypedValue { type_id, value: read }),
            Err(why) => result is Err && result->Err_0 == ErrorView::DeserializationFailed(why@),
        }
}

/// The bytes of a value of a key with an encoder of its own are what that
/// encoder answers for the value, whatever the version of the key. The encoder
/// sees no value of another type than the registered one.
pub proof fn law_custom_encoder_is_used<
    V: ContextValue,
    E: Fn(&V) -> Result<Vec<u8>, String>,
    D,
    M,
>(
    registrations: Registrations<E, D, M>,
    key: Seq<char>,
    value: Arc<TypedValue<V>>,
    result: Result<Seq<u8>, ErrorView>,
)
    requires
        registrations.contains_key(key),
        registrations[key].serialize_fn is Some,
        crate::wire::encodes(registrations, key, *value, result),
    ensures
        value.type_id == registrations[key].type_id && result is Ok ==> exists|bytes: Vec<u8>|
            #[trigger]
            registrations[key].serialize_fn->0.ensures((&value.value,), Ok(bytes)) && bytes@
                == result->Ok_0,
        value.type_id == registrations[key].type_id && result is Err ==> exists|why: String|
            #[trigger]
            registrations[key].serialize_fn->0.ensures((&value.value,), Err(why)) && result->Err_0
                == ErrorView::SerializationFailed(why@),
        value.type_id != registrations[key].type_id ==> result is Err && result->Err_0
            is SerializationFailed,
{
    if value.type_id == registrations[key].type_id {
        let encode = registrations[key].serialize_fn->0;
        let answer = choose|answer: Result<Vec<u8>, String>| #[trigger]
            encode.ensures((&value.value,), answer) && result == crate::wire::custom_outcome(
                answer,
            );
        match answer {
            Ok(bytes) => {
                assert(encode.ensures((&value.value,), Ok::<Vec<u8>, String>(bytes)));
            },
            Err(why) => {
                assert(encode.ensures((&value.value,), Err::<Vec<u8>, String>(why)));
            },
        }
    }
}

/// The bytes of a value of any other key are what the value makes of itself.
pub proof fn law_default_encoding_is_used<
    V: ContextValue,
    E: Fn(&V) -> Result<Vec<u8>, String>,
    D,
    M,
>(
    registrations: Registrations<E, D, M>,
    key: Seq<char>,
    value: Arc<TypedValue<V>>,
    result: Result<Seq<u8>, ErrorView>,
)
    requires
        registrations.contains_key(key) ==> registrations[key].serialize_fn is None,
        crate::wire::encodes(registrations, key, *value, result),
    ensures
        result is Ok ==> exists|bytes: Vec<u8>| #[trigger]
            call_ensures(V::serialize_value, (&value.value,), Ok(bytes)) && bytes@ == result->Ok_0,
        result is Err ==> exists|error: crate::error::ContextError| #[trigger]
            call_ensures(V::serialize_value, (&value.value,), Err(error)) && error@
                == result->Err_0,
{
    let answer = choose|answer: Result<Vec<u8>, crate::error::ContextError>| #[trigger]
        call_ensures(V::serialize_value, (&value.value,), answer) && result
            == crate::wire::bytes_outcome(answer);
    match answer {
        Ok(bytes) => {
            assert(call_ensures(
                V::serialize_value,
                (&value.value,),
                Ok::<Vec<u8>, crate::error::ContextError>(bytes),
            ));
        },
        Err(error) => {
            assert(call_ensures(
                V::serialize_value,
                (&value.value,),
                Err::<Vec<u8>, crate::error::ContextError>(error),
            ));
        },
    }
}

/// A key that is registered with a codec, in any version, is written in that
/// version with what the codec's encoder answers, and what is read in that
/// version is what the codec's decoder answers.
pub proof fn law_registered_codec_is_used<
    V: ContextValue,
    E: Fn(&V) -> Result<Vec<u8>, String>,
    D: Fn(&[u8]) -> Result<V, String>,
    M,
>(
    before: Registrations<E, D, M>,
    key: Seq<char>,
    ty: TypeInfo,
    options: RegistrationOptions<E, D, M>,
    decode: D,
    value: Arc<TypedValue<V>>,
    written: Seq<EntryView>,
    i: int,
    result: Result<Option<(Seq<char>, Arc<TypedValue<V>>)>, ErrorView>,
)
    requires
        !before.contains_key(key),
        !options.local_only,
        options.encode is Some,
        options.decode is Some,
        value.type_id == ty.id,
        crate::wire::entries_for(
            crate::registry::registered_with(before, key, ty, options, decode).0,
            map![key => value],
            written,
        ),
        0 <= i < written.len(),
        crate::wire::decodes(
            crate::registry::registered_with(before, key, ty, options, decode).0,
            written[i],
            result,
        ),
    ensures
        written.len() == 1,
        written[i].key == key,
        written[i].key_version == options.version,
        exists|bytes: Vec<u8>| #[trigger]
            options.encode->0.ensures((&value.value,), Ok(bytes)) && bytes@ == written[i].value,
        read_by(options.decode->0, written[i], ty.id, result),
{
    let after = crate::registry::registered_with(before, key, ty, options, decode).0;
    let values = map![key => value];
    assert(values.contains_key(written[i].key));
    assert(written[i].key == key);
    if written.len() > 1 {
        let j = if i == 0 {
            1
        } else {
            0
        };
        assert(values.contains_key(written[j].key));
        if i < j {
            assert(written[i].key != written[j].key);
        } else {
            assert(written[j].key != written[i].key);
        }
    }
    assert(*values[key] == *value);
    law_custom_encoder_is_used(after, key, value, Ok(written[i].value));
    law_entries_are_decoded(after, written[i], result);
}

/// An entry in a version that there is a decoder for is decoded with that
/// decoder, and becomes a value of the registered type. Any other version of a
/// key that has decoders is refused.
pub proof fn law_entries_are_decoded<V, E, D: Fn(&[u8]) -> Result<V, String>, M>(
    registrations: Registrations<E, D, M>,
    entry: EntryView,
    result: Result<Option<(Seq<char>, Arc<TypedValue<V>>)>, ErrorView>,
)
    requires
        registrations.contains_key(entry.key),
        crate::wire::decodes(registrations, entry, result),
    ensures
        registrations[entry.key].deserializers.contains_key(entry.key_version) ==> read_by(
            registrations[entry.key].deserializers[entry.key_version],
            entry,
            registrations[entry.key].type_id,
            result,
        ),
        !registrations[entry.key].deserializers.contains_key(entry.key_version)
            && registrations[entry.key].deserializers != Map::<u32, D>::empty() ==> result is Err
            && result->Err_0 is DeserializationFailed,
{
    if registrations[entry.key].deserializers.contains_key(entry.key_version) {
        assert(registrations[entry.key].deserializers != Map::<u32, D>::empty()) by {
            assert(!Map::<u32, D>::empty().contains_key(entry.key_version));
        }
    }
}

/// The entry of a registered key that may leave the process is never passed
/// over: it is read or refused.
pub proof fn law_known_entries_are_not_passed_over<V, E, D: Fn(&[u8]) -> Result<V, String>, M>(
    registrations: Registrations<E, D, M>,
    entry: EntryView,
    result: Result<Option<(Seq<char>, Arc<TypedValue<V>>)>, ErrorView>,
)
    requires
        crate::registry::registrations_wf(registrations),
        registrations.contains_key(entry.key),
        !registrations[entry.key].local_only,
        crate::wire::decodes(registrations, entry, result),
    ensures
        result is Ok ==> result->Ok_0 is Some && (result->Ok_0->0).0 == entry.key
            && (result->Ok_0->0).1.type_id == registrations[entry.key].type_id
            && registrations[entry.key].deserializers.contains_key(entry.key_version),
{
    assert(registrations[entry.key].wf());
    assert(!Map::<u32, D>::empty().contains_key(registrations[entry.key].key_version));
    law_entries_are_decoded(registrations, entry, result);
}

/// However many older versions a key has decoders for, an entry in any of them
/// is decoded with the decoder that was registered for it.
pub proof fn law_every_migration_stays_in_force<V, E, D: Fn(&[u8]) -> Result<V, String>, M>(
    before: Registrations<E, D, M>,
    key: Seq<char>,
    current: TypeInfo,
    old_version: u32,
    decoder: D,
    entry: EntryView,
    result: Result<Option<(Seq<char>, Arc<TypedValue<V>>)>, ErrorView>,
)
    requires
        before.contains_key(key),
        before[key].type_id == current.id,
        !before[key].local_only,
        before[key].key_version != old_version,
        entry.key == key,
        entry.key_version == old_version || before[key].deserializers.contains_key(
            entry.key_version,
        ),
        crate::wire::decodes(
            crate::registry::registered_migration(before, key, current, old_version, decoder).0,
            entry,
            result,
        ),
    ensures
        entry.key_version == old_version ==> read_by(decoder, entry, current.id, result),
        entry.key_version != old_version ==> read_by(
            before[key].deserializers[entry.key_version],
            entry,
            current.id,
            result,
        ),
{
    let after = crate::registry::registered_migration(
        before,
        key,
        current,
        old_version,
        decoder,
    ).0;
    law_entries_are_decoded(after, entry, result);
}

/// There is one entry for each value whose key may leave the process, and none
/// besides: in the version that the key is registered with, or version 1 for a
/// key that is not registered.
pub proof fn law_each_value_has_its_entry<
    V: ContextValue,
    E: Fn(&V) -> Result<Vec<u8>, String>,
    D,
    M,
>(
    registrations: Registrations<E, D, M>,
    values: Map<Seq<char>, Arc<TypedValue<V>>>,
    entries: Seq<EntryView>,
    key: Seq<char>,
    i: int,
    j: int,
)
    requires
        crate::wire::entries_for(registrations, values, entries),
        0 <= i < entries.len(),
        0 <= j < entries.len(),
    ensures
        values.contains_key(key) && (registrations.contains_key(key)
            ==> !registrations[key].local_only) <==> exists|a: int|
            0 <= a < entries.len() && (#[trigger] entries[a]).key == key,
        i != j ==> entries[i].key != entries[j].key,
        registrations.contains_key(entries[i].key) ==> entries[i].key_version
            == registrations[entries[i].key].key_version,
        !registrations.contains_key(entries[i].key) ==> entries[i].key_version == 1,
        crate::wire::encodes(
            registrations,
            entries[i].key,
            *values[entries[i].key],
            Ok(entries[i].value),
        ),
{
    if i < j {
        assert(entries[i].key != entries[j].key);
    } else if j < i {
        assert(entries[j].key != entries[i].key);
    }
    if values.contains_key(key) && (registrations.contains_key(key)
        ==> !registrations[key].local_only) {
        assert(values.contains_key(key) && !crate::registry::is_local(registrations, key));
    }
}

/// What serializing values gives: bytes of the current format within the limit,
/// with the scope chain and an entry for each value that may leave the process;
/// or the error of such a value; or the size that is over the limit. A limit of
/// 0 is no limit.
pub proof fn law_serialized_bytes<
    V: ContextValue,
    E: Fn(&V) -> Result<Vec<u8>, String>,
    D,
    M,
>(
    registrations: Registrations<E, D, M>,
    config: Config,
    values: Map<Seq<char>, Arc<TypedValue<V>>>,
    scope_chain: Seq<Seq<char>>,
    result: Result<Seq<u8>, ErrorView>,
)
    requires
        crate::wire::serializes(registrations, config, values, scope_chain, result),
    ensures
        result is Ok ==> (config.max_context_size == 0 || result->Ok_0.len()
            <= config.max_context_size) && exists|entries: Seq<EntryView>| #[trigger]
            crate::wire::entries_for(registrations, values, entries) && result->Ok_0
                == crate::wire_format::wire_bytes(WireView { version: 2, entries, scope_chain }),
        result is Err ==> (exists|key: Seq<char>| #[trigger]
            values.contains_key(key) && (registrations.contains_key(key)
                ==> !registrations[key].local_only) && crate::wire::encodes(
                registrations,
                key,
                *values[key],
                Err(result->Err_0),
            )) || (exists|entries: Seq<EntryView>| #[trigger]
            crate::wire::entries_for(registrations, values, entries) && ({
                let size = crate::wire_format::wire_bytes(
                    WireView { version: 2, entries, scope_chain },
                ).len();
                0 < config.max_context_size < size && result->Err_0
                    == (ErrorView::ContextTooLarge {
                    size: size as usize,
                    limit: config.max_context_size,
                })
            })),
{
    if result is Err {
        let error = result->Err_0;
        if exists|key: Seq<char>| #[trigger]
            values.contains_key(key) && !crate::registry::is_local(registrations, key)
                && crate::wire::encodes(registrations, key, *values[key], Err(error)) {
            let key = choose|key: Seq<char>| #[trigger]
                values.contains_key(key) && !crate::registry::is_local(registrations, key)
                    && crate::wire::encodes(registrations, key, *values[key], Err(error));
            assert(values.contains_key(key));
        }
    }
}

/// Of the entries with a key the last one counts, and a key without an entry
/// has no value.
pub proof fn law_last_entry_counts<V>(
    restored: Seq<Option<(Seq<char>, Arc<TypedValue<V>>)>>,
    key: Seq<char>,
    i: int,
)
    ensures
        ({
            let values = crate::wire::restored_values(restored);
            &&& values.contains_key(key) <==> exists|a: int|
                0 <= a < restored.len() && (#[trigger] restored[a]) is Some && (restored[a]->0).0
                    == key
            &&& (0 <= i < restored.len() && restored[i] is Some && (restored[i]->0).0 == key
                && forall|b: int|
                i < b < restored.len() && (#[trigger] restored[b]) is Some ==> (restored[b]->0).0
                    != key) ==> values.contains_key(key) && values[key] == (restored[i]->0).1
        }),
    decreases restored.len(),
{
    let values = crate::wire::restored_values(restored);
    if restored.len() > 0 {
        let before = restored.drop_last();
        let n = restored.len() - 1;
        law_last_entry_counts(before, key, i);
        assert(restored[n] == restored.last());
        if values.contains_key(key) {
            if !(restored[n] is Some && (restored[n]->0).0 == key) {
                let a = choose|a: int|
                    0 <= a < before.len() && (#[trigger] before[a]) is Some && (before[a]->0).0
                        == key;
                assert(restored[a] is Some && (restored[a]->0).0 == key);
            }
        }
        if exists|a: int|
            0 <= a < restored.len() && (#[trigger] restored[a]) is Some && (restored[a]->0).0
                == key {
            let a = choose|a: int|
                0 <= a < restored.len() && (#[trigger] restored[a]) is Some && (restored[a]->0).0
                    == key;
            if a < n {
                assert(before[a] is Some && (before[a]->0).0 == key);
            }
        }
        if 0 <= i < n && restored[i] is Some && (restored[i]->0).0 == key && forall|b: int|
            i < b < restored.len() && (#[trigger] restored[b]) is Some ==> (restored[b]->0).0
                != key {
            assert(before[i] == restored[i]);
            assert forall|b: int| i < b < before.len() && (#[trigger] before[b]) is Some implies (
            before[b]->0).0 != key by {
                assert(before[b] == restored[b]);
            }
        }
    }
}

/// Bytes that start with a context in a supported format version are refused
/// only with the error of one of its entries. Where they are read, the scope
/// chain is that of the context, and each entry that no later one with its key
/// follows gives its value, unless it is passed over.
pub proof fn law_bytes_are_read_entry_by_entry<V, E, D: Fn(&[u8]) -> Result<V, String>, M>(
    registrations: Registrations<E, D, M>,
    wire: WireView,
    bytes: Seq<u8>,
    error: ErrorView,
    snapshot: SnapshotView<V>,
    i: int,
)
    requires
        wire.version == 1 || wire.version == 2,
        crate::wire_format::wire_bytes(wire).is_prefix_of(bytes),
        bytes.len() <= usize::MAX,
    ensures
        crate::snapshot::rejects::<V, E, D, M>(registrations, bytes, error) ==> exists|a: int|
            0 <= a < wire.entries.len() && crate::wire::decodes::<V, E, D, M>(
                registrations,
                #[trigger] wire.entries[a],
                Err(error),
            ),
        crate::snapshot::deserializes(registrations, bytes, snapshot) ==> snapshot.scope_chain
            == wire.scope_chain,
        crate::snapshot::deserializes(registrations, bytes, snapshot) && 0 <= i < wire.entries.len()
            && (forall|b: int|
            i < b < wire.entries.len() ==> (#[trigger] wire.entries[b]).key != wire.entries[i].key)
            && registrations.contains_key(wire.entries[i].key)
            && registrations[wire.entries[i].key].deserializers.contains_key(
            wire.entries[i].key_version,
        ) ==> snapshot.values.contains_key(wire.entries[i].key) && crate::wire::decodes(
            registrations,
            wire.entries[i],
            Ok(Some((wire.entries[i].key, snapshot.values[wire.entries[i].key]))),
        ),
{
    if crate::snapshot::rejects::<V, E, D, M>(registrations, bytes, error) {
        lemma_readable(wire, bytes, error);
        let (entries, scope_chain) = choose|entries: Seq<EntryView>, scope_chain: Seq<Seq<char>>|
            #[trigger]
            crate::wire::reads_as(bytes, entries, scope_chain) && crate::wire::fails_first::<
                V,
                E,
                D,
                M,
            >(registrations, entries, error);
        lemma_reads_as_wire(wire, bytes, entries, scope_chain);
        let (a, _restored) = choose|
            a: int,
            restored: Seq<Option<(Seq<char>, Arc<TypedValue<V>>)>>,
        |
            {
                &&& 0 <= a < entries.len()
                &&& #[trigger] crate::wire::restores(registrations, entries.take(a), restored)
                &&& crate::wire::decodes::<V, E, D, M>(registrations, entries[a], Err(error))
            };
        assert(crate::wire::decodes::<V, E, D, M>(registrations, wire.entries[a], Err(error)));
    }
    if crate::snapshot::deserializes(registrations, bytes, snapshot) {
        let (entries, restored) = choose|
            entries: Seq<EntryView>,
            restored: Seq<Option<(Seq<char>, Arc<TypedValue<V>>)>>,
        |
            {
                &&& #[trigger] crate::wire::restores(registrations, entries, restored)
                &&& crate::wire::reads_as(bytes, entries, snapshot.scope_chain)
                &&& snapshot.values == crate::wire::restored_values(restored)
            };
        lemma_reads_as_wire(wire, bytes, entries, snapshot.scope_chain);
        if 0 <= i < wire.entries.len() && (forall|b: int|
            i < b < wire.entries.len() ==> (#[trigger] wire.entries[b]).key != wire.entries[i].key)
            && registrations.contains_key(wire.entries[i].key)
            && registrations[wire.entries[i].key].deserializers.contains_key(
            wire.entries[i].key_version,
        ) {
            let key = entries[i].key;
            assert(crate::wire::decodes(registrations, entries[i], Ok(restored[i])));
            law_entries_are_decoded(registrations, entries[i], Ok(restored[i]));
            assert(restored[i] is Some && (restored[i]->0).0 == key);
            assert forall|b: int| i < b < restored.len() && (#[trigger] restored[b]) is Some implies (
            restored[b]->0).0 != key by {
                assert(crate::wire::decodes(registrations, entries[b], Ok(restored[b])));
                assert(entries[b].key != key);
            }
            law_last_entry_counts(restored, key, i);
        }
    }
}

proof fn lemma_readable(wire: WireView, bytes: Seq<u8>, error: ErrorView)
    requires
        wire.version == 1 || wire.version == 2,
        crate::wire_format::wire_bytes(wire).is_prefix_of(bytes),
        bytes.len() <= usize::MAX,
    ensures
        !crate::wire::unreadable(bytes, error),
{
    if crate::wire::unreadable(bytes, error) {
        let other = choose|other: WireView|
            (#[trigger] crate::wire_format::wire_bytes(other)).is_prefix_of(bytes) && other.version
                != 1 && other.version != 2 && error == ErrorView::DeserializationFailed(
                crate::wire::unsupported_text(other.version),
            );
        crate::wire_format::law_bytes_have_one_meaning(other, wire, bytes);
    }
}

proof fn lemma_reads_as_wire(
    wire: WireView,
    bytes: Seq<u8>,
    entries: Seq<EntryView>,
    scope_chain: Seq<Seq<char>>,
)
    requires
        crate::wire_format::wire_bytes(wire).is_prefix_of(bytes),
        bytes.len() <= usize::MAX,
        crate::wire::reads_as(bytes, entries, scope_chain),
    ensures
        entries == wire.entries,
        scope_chain == wire.scope_chain,
{
    let version = choose|version: u32|
        (version == 1 || version == 2) && #[trigger] crate::wire::starts_with_context(
            bytes,
            version,
            entries,
            scope_chain,
        );
    crate::wire_format::law_bytes_have_one_meaning(
        WireView { version, entries, scope_chain },
        wire,
        bytes,
    );
}

/// A key whose decoder for the written version reads back whatever its encoder
/// writes for a value of the registered type is read back from the wire. The
/// encoder is the key's own where it has one, else that of the value itself.
pub proof fn law_codecs_that_read_back_round_trip<
    V: ContextValue,
    E: Fn(&V) -> Result<Vec<u8>, String>,
    D: Fn(&[u8]) -> Result<V, String>,
    M,
>(registrations: Registrations<E, D, M>, key: Seq<char>, value: Arc<TypedValue<V>>)
    requires
        registrations.contains_key(key),
        registrations[key].deserializers.contains_key(registrations[key].key_version),
        value.type_id == registrations[key].type_id,
        registrations[key].serialize_fn is Some ==> forall|
            written: Vec<u8>,
            bytes: &[u8],
            answer: Result<V, String>,
        |
            #![trigger registrations[key].serialize_fn->0.ensures((&value.value,), Ok(written)), registrations[key].deserializers[registrations[key].key_version].ensures((bytes,), answer)]
            registrations[key].serialize_fn->0.ensures((&value.value,), Ok(written)) && bytes@
                == written@
                && registrations[key].deserializers[registrations[key].key_version].ensures(
                (bytes,),
                answer,
            ) ==> answer == Ok::<V, String>(value.value),
        registrations[key].serialize_fn is None ==> forall|
            written: Vec<u8>,
            bytes: &[u8],
            answer: Result<V, String>,
        |
            #![trigger call_ensures(V::serialize_value, (&value.value,), Ok(written)), registrations[key].deserializers[registrations[key].key_version].ensures((bytes,), answer)]
            call_ensures(V::serialize_value, (&value.value,), Ok(written)) && bytes@ == written@
                && registrations[key].deserializers[registrations[key].key_version].ensures(
                (bytes,),
                answer,
            ) ==> answer == Ok::<V, String>(value.value),
    ensures
        crate::snapshot::round_trips(registrations, key, value),
{
    let version = crate::wire::written_version(registrations, key);
    assert forall|
        bytes: Seq<u8>,
        result: Result<Option<(Seq<char>, Arc<TypedValue<V>>)>, ErrorView>,
    |
        #![trigger crate::wire::encodes(registrations, key, *value, Ok(bytes)), crate::wire::decodes(registrations, EntryView { key, key_version: version, value: bytes }, result)]
        crate::wire::encodes(registrations, key, *value, Ok(bytes)) && crate::wire::decodes(
            registrations,
            EntryView { key, key_version: version, value: bytes },
            result,
        ) implies result == Ok::<Option<(Seq<char>, Arc<TypedValue<V>>)>, ErrorView>(
        Some((key, value)),
    ) by {
        let entry = EntryView { key, key_version: version, value: bytes };
        law_entries_are_decoded(registrations, entry, result);
        let decode = registrations[key].deserializers[version];
        let (given, answer) = choose|given: &[u8], answer: Result<V, String>| #[trigger]
            decode.ensures((given,), answer) && given@ == entry.value && match answer {
                Ok(read) => result is Ok && result->Ok_0 is Some && (result->Ok_0->0).0
                    == entry.key && *(result->Ok_0->0).1 == (TypedValue {
                    type_id: registrations[entry.key].type_id,
                    value: read,
                }),
                Err(why) => result is Err && result->Err_0 == ErrorView::DeserializationFailed(
                    why@,
                ),
            };
        if registrations[key].serialize_fn is Some {
            law_custom_encoder_is_used(registrations, key, value, Ok(bytes));
            let written = choose|written: Vec<u8>| #[trigger]
                registrations[key].serialize_fn->0.ensures((&value.value,), Ok(written))
                    && written@ == bytes;
            assert(decode.ensures((given,), answer));
            assert(answer == Ok::<V, String>(value.value));
        } else {
            law_default_encoding_is_used(registrations, key, value, Ok(bytes));
            let written = choose|written: Vec<u8>| #[trigger]
                call_ensures(V::serialize_value, (&value.value,), Ok(written)) && written@
                    == bytes;
            assert(decode.ensures((given,), answer));
            assert(answer == Ok::<V, String>(value.value));
        }
    }
}

/// An entry in a version that there is no decoder for is refused with a message
/// that names the key, the version, and each version that can be read, once.
pub proof fn law_missing_version_is_named<V, E, D: Fn(&[u8]) -> Result<V, String>, M>(
    registrations: Registrations<E, D, M>,
    entry: EntryView,
    result: Result<Option<(Seq<char>, Arc<TypedValue<V>>)>, ErrorView>,
)
    requires
        registrations.contains_key(entry.key),
        registrations[entry.key].deserializers != Map::<u32, D>::empty(),
        !registrations[entry.key].deserializers.contains_key(entry.key_version),
        crate::wire::decodes(registrations, entry, result),
    ensures
        exists|versions: Seq<u32>| #[trigger]
            versions.no_duplicates() && (forall|v: u32|
                versions.contains(v) <==> #[trigger] registrations[entry.key].deserializers
                    .contains_key(v)) && result == Err::<
                Option<(Seq<char>, Arc<TypedValue<V>>)>,
                ErrorView,
            >(
                ErrorView::DeserializationFailed(
                    "no deserializer for key '"@ + entry.key + "' wire version "@
                        + crate::text::decimal(entry.key_version as nat)
                        + " (registered versions: ["@ + crate::wire::version_list_text(versions)
                        + "])"@,
                ),
            ),
{
    let decoders = registrations[entry.key].deserializers;
    let versions = choose|versions: Seq<u32>| #[trigger]
        versions.no_duplicates() && versions.to_set() == decoders.dom() && result == Err::<
            Option<(Seq<char>, Arc<TypedValue<V>>)>,
            ErrorView,
        >(
            ErrorView::DeserializationFailed(
                crate::wire::unreadable_text(entry.key, entry.key_version, versions),
            ),
        );
    assert forall|v: u32| versions.contains(v) <==> #[trigger] decoders.contains_key(v) by {
        assert(versions.to_set().contains(v) <==> versions.contains(v));
    }
    assert(versions.no_duplicates());
}

/// A list of versions has them one after the other, with commas in between.
pub proof fn law_version_list(versions: Seq<u32>, last: u32)
    ensures
        crate::wire::version_list_text(seq![last]) == crate::text::decimal(last as nat),
        versions.len() > 0 ==> crate::wire::version_list_text(versions.push(last))
            == crate::wire::version_list_text(versions) + ", "@ + crate::text::decimal(
            last as nat,
        ),
{
    assert(versions.push(last).drop_last() =~= versions);
    assert(seq![last].drop_last() =~= Seq::<u32>::empty());
}

} // verus!
