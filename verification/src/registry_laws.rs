//! What registering a key comes to.

use std::any::TypeId;
use vstd::prelude::*;

use crate::error::ErrorView;
use crate::registry::{RegistrationOptions, Registrations};
use crate::value::TypeInfo;

verus! {

/// A key that is registered without options is written in version 1 with the
/// default codec, is not cached, has no metadata, and may leave the process.
pub proof fn law_defaults<E, D, M>(
    before: Registrations<E, D, M>,
    key: Seq<char>,
    ty: TypeInfo,
    decode: D,
)
    requires
        !before.contains_key(key),
    ensures
        ({
            let (after, result) = crate::registry::registered_with(
                before,
                key,
                ty,
                RegistrationOptions::fresh(),
                decode,
            );
            &&& result is Ok
            &&& after[key].key_version == 1
            &&& after[key].deserializers.contains_key(1) && after[key].deserializers[1] == decode
            &&& after[key].serialize_fn is None
            &&& after[key].metadata is None
            &&& !after[key].cached
            &&& !after[key].local_only
        }),
{
}

/// Registering a key succeeds exactly where the options do not ask for a codec
/// or a version of values that stay in the process, and the key is free or has
/// the same type. Keys that were registered before stay as they were.
pub proof fn law_registration_succeeds_exactly<E, D, M>(
    before: Registrations<E, D, M>,
    key: Seq<char>,
    ty: TypeInfo,
    options: RegistrationOptions<E, D, M>,
    decode: D,
    other: Seq<char>,
)
    ensures
        ({
            let (after, result) = crate::registry::registered_with(
                before,
                key,
                ty,
                options,
                decode,
            );
            let (local_after, local_result) = crate::registry::registered_local(before, key, ty);
            &&& result is Ok <==> !(options.local_only && (options.encode is Some
                || options.decode is Some || options.version != 1)) && (before.contains_key(key)
                ==> before[key].type_id == ty.id)
            &&& local_result is Ok <==> (before.contains_key(key) ==> before[key].type_id == ty.id)
            &&& before.contains_key(other) ==> after.contains_key(other) && after[other]
                == before[other] && local_after.contains_key(other) && local_after[other]
                == before[other]
            &&& !before.contains_key(other) && other != key ==> !after.contains_key(other)
                && !local_after.contains_key(other)
            &&& result is Ok ==> after.contains_key(key) && after[key].type_id == ty.id
            &&& local_result is Ok ==> local_after.contains_key(key) && local_after[key].type_id
                == ty.id
        }),
{
}

/// A free key is registered as the options ask: its version, its encoder, its
/// metadata, whether it is cached and whether it stays in the process. Values
/// are read in that version and no other, with the decoder of the options or
/// else the default one; those that stay in the process in none.
pub proof fn law_options_take_effect<E, D, M>(
    before: Registrations<E, D, M>,
    key: Seq<char>,
    ty: TypeInfo,
    options: RegistrationOptions<E, D, M>,
    decode: D,
    version: u32,
)
    requires
        !before.contains_key(key),
        options.local_only ==> options.encode is None && options.decode is None && options.version
            == 1,
    ensures
        ({
            let reg = crate::registry::registered_with(before, key, ty, options, decode).0[key];
            &&& reg.type_id == ty.id
            &&& reg.value_type == ty.name@
            &&& reg.key_version == options.version
            &&& reg.serialize_fn == options.encode
            &&& reg.metadata == options.metadata
            &&& reg.cached == options.cached
            &&& reg.local_only == options.local_only
            &&& reg.deserializers.contains_key(version) <==> !options.local_only && version
                == options.version
            &&& reg.deserializers.contains_key(version) && options.decode is Some
                ==> reg.deserializers[version] == options.decode->0
            &&& reg.deserializers.contains_key(version) && options.decode is None
                ==> reg.deserializers[version] == decode
        }),
        ({
            let reg = crate::registry::registered_local(before, key, ty).0[key];
            &&& reg.type_id == ty.id
            &&& reg.value_type == ty.name@
            &&& reg.local_only
            &&& !reg.cached
            &&& reg.serialize_fn is None
            &&& reg.metadata is None
            &&& !reg.deserializers.contains_key(version)
        }),
{
}

/// What is asked of a registered key is what its options said: whether a new
/// scope starts with its value, whether it has metadata, whether it stays in the
/// process, and which type it has. Nothing of this changes for another key.
pub proof fn law_questions_follow_the_options<E, D, M>(
    before: Registrations<E, D, M>,
    key: Seq<char>,
    ty: TypeInfo,
    options: RegistrationOptions<E, D, M>,
    decode: D,
    type_id: TypeId,
    other: Seq<char>,
)
    requires
        !before.contains_key(key),
        options.local_only ==> options.encode is None && options.decode is None && options.version
            == 1,
        other != key,
    ensures
        ({
            let after = crate::registry::registered_with(before, key, ty, options, decode).0;
            &&& crate::registry::cached_set(after).contains(key) == options.cached
            &&& crate::registry::metadata_set(after).contains(key) == options.metadata is Some
            &&& crate::registry::is_local(after, key) == options.local_only
            &&& crate::registry::has_type(after, key, type_id) == (type_id == ty.id)
            &&& crate::registry::cached_set(after).contains(other)
                == crate::registry::cached_set(before).contains(other)
            &&& crate::registry::metadata_set(after).contains(other)
                == crate::registry::metadata_set(before).contains(other)
            &&& crate::registry::is_local(after, other) == crate::registry::is_local(before, other)
            &&& crate::registry::has_type(after, other, type_id) == crate::registry::has_type(
                before,
                other,
                type_id,
            )
        }),
        !crate::registry::cached_set(before).contains(key),
        !crate::registry::metadata_set(before).contains(key),
        !crate::registry::is_local(before, key),
        !crate::registry::has_type(before, key, type_id),
{
}

/// Whatever the registrations are: a key is cached, has metadata, stays in the
/// process or has a type exactly where it is registered so.
pub proof fn law_questions_are_answered_from_the_registration<E, D, M>(
    registrations: Registrations<E, D, M>,
    key: Seq<char>,
    type_id: TypeId,
)
    ensures
        crate::registry::cached_set(registrations).contains(key) <==> registrations.contains_key(
            key,
        ) && registrations[key].cached,
        crate::registry::metadata_set(registrations).contains(key) <==> registrations.contains_key(
            key,
        ) && registrations[key].metadata is Some,
        crate::registry::is_local(registrations, key) <==> registrations.contains_key(key)
            && registrations[key].local_only,
        crate::registry::has_type(registrations, key, type_id) <==> registrations.contains_key(key)
            && registrations[key].type_id == type_id,
{
}

/// Registering a decoder for another version succeeds exactly where the key is
/// registered with the current type, does not stay in the process, and is
/// written in another version. It is there afterwards, and nothing else about
/// the key or about other keys has changed.
pub proof fn law_migration_succeeds_exactly<E, D, M>(
    before: Registrations<E, D, M>,
    key: Seq<char>,
    current: TypeInfo,
    old_version: u32,
    decoder: D,
    version: u32,
    other: Seq<char>,
)
    ensures
        ({
            let (after, result) = crate::registry::registered_migration(
                before,
                key,
                current,
                old_version,
                decoder,
            );
            let possible = before.contains_key(key) && before[key].type_id == current.id
                && !before[key].local_only && before[key].key_version != old_version;
            &&& result is Ok <==> possible
            &&& possible ==> after.contains_key(key) && after[key].deserializers.contains_key(
                old_version,
            ) && after[key].deserializers[old_version] == decoder
            &&& before.contains_key(key) ==> after.contains_key(key) && after[key]
                == (crate::registry::RegistrationView {
                deserializers: after[key].deserializers,
                ..before[key]
            })
            &&& before.contains_key(key) && version != old_version
                ==> after[key].deserializers.contains_key(version)
                == before[key].deserializers.contains_key(version)
            &&& before.contains_key(key) && version != old_version
                && before[key].deserializers.contains_key(version)
                ==> after[key].deserializers[version] == before[key].deserializers[version]
            &&& !possible ==> after == before
            &&& other != key ==> after.contains_key(other) == before.contains_key(other)
            &&& other != key && before.contains_key(other) ==> after[other] == before[other]
        }),
{
}

/// Why a decoder for another version is refused.
pub proof fn law_migration_refusals<E, D, M>(
    before: Registrations<E, D, M>,
    key: Seq<char>,
    current: TypeInfo,
    old_version: u32,
    decoder: D,
)
    ensures
        ({
            let result = crate::registry::registered_migration(
                before,
                key,
                current,
                old_version,
                decoder,
            ).1;
            &&& !before.contains_key(key) ==> result == Err::<(), ErrorView>(
                ErrorView::NotRegistered(key),
            )
            &&& before.contains_key(key) && before[key].type_id != current.id ==> result == Err::<
                (),
                ErrorView,
            >(ErrorView::TypeMismatch(key, before[key].value_type, current.name@))
            &&& before.contains_key(key) && before[key].type_id == current.id
                && before[key].local_only ==> result is Err && result->Err_0 is SerializationFailed
            &&& before.contains_key(key) && before[key].type_id == current.id
                && !before[key].local_only && before[key].key_version == old_version ==> result
                is Err && result->Err_0 is DeserializationFailed
        }),
{
}

/// Decoders for several older versions stand side by side, in whichever order
/// and however far back they are registered.
pub proof fn law_migrations_stand_side_by_side<E, D, M>(
    before: Registrations<E, D, M>,
    key: Seq<char>,
    ty: TypeInfo,
    options: RegistrationOptions<E, D, M>,
    decode: D,
    first: u32,
    first_decoder: D,
    second: u32,
    second_decoder: D,
)
    requires
        !before.contains_key(key),
        !options.local_only,
        first != second,
        first != options.version,
        second != options.version,
    ensures
        ({
            let new = crate::registry::registered_with(before, key, ty, options, decode);
            let once = crate::registry::registered_migration(
                new.0,
                key,
                ty,
                first,
                first_decoder,
            );
            let twice = crate::registry::registered_migration(
                once.0,
                key,
                ty,
                second,
                second_decoder,
            );
            &&& new.1 is Ok
            &&& once.1 is Ok
            &&& twice.1 is Ok
            &&& twice.0[key].key_version == options.version
            &&& twice.0[key].deserializers.contains_key(options.version)
            &&& twice.0[key].deserializers.contains_key(first)
                && twice.0[key].deserializers[first] == first_decoder
            &&& twice.0[key].deserializers.contains_key(second)
                && twice.0[key].deserializers[second] == second_decoder
        }),
{
}

/// A key with a type is accepted by a registry exactly where it is registered
/// with that type.
pub proof fn law_typed_keys_are_checked<E, D, M>(
    registrations: Registrations<E, D, M>,
    key: Seq<char>,
    ty: TypeInfo,
)
    ensures
        ({
            let refused = crate::context_key::refusal(registrations, key, ty);
            &&& refused is None <==> registrations.contains_key(key) && registrations[key].type_id
                == ty.id
            &&& !registrations.contains_key(key) ==> refused == Some(ErrorView::NotRegistered(key))
            &&& registrations.contains_key(key) && registrations[key].type_id != ty.id
                ==> refused == Some(
                ErrorView::TypeMismatch(key, registrations[key].value_type, ty.name@),
            )
        }),
{
}

/// A function that is applied to the keys with metadata is applied to each such
/// key once, with the metadata that it is registered with.
pub proof fn law_each_key_with_metadata_is_visited<E, D, M, R, F>(
    registrations: Registrations<E, D, M>,
    f: F,
    results: Seq<R>,
    key: Seq<char>,
    i: int,
) where F: Fn(&'static str, &M) -> R
    requires
        crate::registry::metadata_results(registrations, f, results),
        0 <= i < results.len(),
    ensures
        registrations.contains_key(key) && registrations[key].metadata is Some ==> exists|
            name: &'static str,
            a: int,
        |
            #![trigger f.ensures((name, &registrations[name@].metadata->0), results[a])]
            name@ == key && 0 <= a < results.len() && f.ensures(
                (name, &registrations[name@].metadata->0),
                results[a],
            ),
        exists|name: &'static str| #[trigger]
            f.ensures((name, &registrations[name@].metadata->0), results[i])
                && registrations.contains_key(name@) && registrations[name@].metadata is Some,
{
    let keys = choose|keys: Seq<&'static str>|
        {
            &&& keys.len() == results.len()
            &&& #[trigger] crate::store::key_set(keys) == crate::registry::metadata_set(
                registrations,
            )
            &&& forall|a: int, b: int|
                #![trigger keys[a], keys[b]]
                0 <= a < b < keys.len() ==> keys[a]@ != keys[b]@
            &&& forall|a: int|
                0 <= a < keys.len() ==> f.ensures(
                    (#[trigger] keys[a], &registrations[keys[a]@].metadata->0),
                    results[a],
                )
        };
    assert(crate::store::key_set(keys).contains(keys[i]@));
    assert(crate::registry::metadata_set(registrations).contains(keys[i]@));
    assert(f.ensures((keys[i], &registrations[keys[i]@].metadata->0), results[i]));
    if registrations.contains_key(key) && registrations[key].metadata is Some {
        assert(crate::registry::metadata_set(registrations).contains(key));
        assert(crate::store::key_set(keys).contains(key));
        let a = choose|a: int| 0 <= a < keys.len() && (#[trigger] keys[a])@ == key;
        assert(f.ensures((keys[a], &registrations[keys[a]@].metadata->0), results[a]));
    }
}

} // verus!
