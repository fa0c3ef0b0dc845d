//! Registration and lookup.

use std::any::TypeId;

use dcontext::error::ContextError;
use dcontext::registry::{
    initialize, try_initialize, try_register, try_register_local, try_register_migration,
    try_register_with, GlobalRegistry, RegistrationOptions, Registry, RegistryBuilder,
};
use dcontext::value::TypeInfo;

struct TestVal;
struct OtherVal;

type Enc = fn(&u64) -> Result<Vec<u8>, String>;
type Dec = fn(&[u8]) -> Result<u64, String>;
type Global = GlobalRegistry<Enc, Dec, &'static str>;
type Options = RegistrationOptions<Enc, Dec, &'static str>;

fn encode(value: &u64) -> Result<Vec<u8>, String> {
    Ok(vec![*value as u8])
}

fn decode_first(bytes: &[u8]) -> Result<u64, String> {
    bytes.first().map(|b| *b as u64).ok_or_else(|| "no byte".to_string())
}

fn decode_seven(_bytes: &[u8]) -> Result<u64, String> {
    Ok(7)
}

fn test_val() -> TypeInfo {
    TypeInfo { id: TypeId::of::<TestVal>(), name: "TestVal" }
}

fn other_val() -> TypeInfo {
    TypeInfo { id: TypeId::of::<OtherVal>(), name: "OtherVal" }
}

fn unique_reg_key(name: &str) -> &'static str {
    let s = format!("reg_test_{}", name);
    Box::leak(s.into_boxed_str())
}

#[test]
fn register_and_lookup() {
    let mut global: Global = GlobalRegistry::new();
    let key = unique_reg_key("lookup");
    try_register(&mut global, key, test_val(), decode_first as Dec).unwrap();
    assert!(global.registry().is_registered(key));
    assert!(!global.registry().is_registered("reg_test_missing_xxx"));
}

#[test]
fn idempotent_registration() {
    let mut global: Global = GlobalRegistry::new();
    let key = unique_reg_key("idem");
    try_register(&mut global, key, test_val(), decode_first as Dec).unwrap();
    try_register(&mut global, key, test_val(), decode_first as Dec).unwrap();
}

#[test]
fn conflicting_registration() {
    let mut global: Global = GlobalRegistry::new();
    let key = unique_reg_key("conflict");
    try_register(&mut global, key, test_val(), decode_first as Dec).unwrap();
    let err = try_register(&mut global, key, other_val(), decode_first as Dec).unwrap_err();
    assert!(matches!(err, ContextError::AlreadyRegistered(_)));
}

#[test]
fn second_registration_keeps_the_first() {
    let mut global: Global = GlobalRegistry::new();
    try_register_with(&mut global, "k", test_val(), decode_first as Dec, |o: Options| {
        o.version(3).cached()
    })
    .unwrap();
    try_register(&mut global, "k", test_val(), decode_seven as Dec).unwrap();
    let registry = global.registry();
    let reg = registry.registration("k").unwrap();
    assert_eq!(reg.key_version, 3);
    assert!(reg.cached);
    assert_eq!((reg.deserializers.get(&3).unwrap())(&[9]), Ok(9));
    assert!(reg.deserializers.get(&1).is_none());
}

#[test]
fn refused_registration_changes_nothing() {
    let mut global: Global = GlobalRegistry::new();
    try_register(&mut global, "k", test_val(), decode_first as Dec).unwrap();
    let err = try_register(&mut global, "k", other_val(), decode_seven as Dec).unwrap_err();
    assert_eq!(err.message(), "context key 'k' is already registered with a different type");
    let registry = global.registry();
    assert!(registry.is_valid_value("k", &TypeId::of::<TestVal>()));
    assert!(!registry.is_valid_value("k", &TypeId::of::<OtherVal>()));
}

#[test]
fn codec_replaces_the_decoder_of_the_native_version() {
    let mut builder: RegistryBuilder<Enc, Dec, &'static str> = RegistryBuilder::new();
    builder.register_with("k", test_val(), decode_first as Dec, |o: Options| {
        o.version(2).codec(encode as Enc, decode_seven as Dec)
    });
    let map = builder.into_map();
    let registry = Registry::new(&map);
    let reg = registry.registration("k").unwrap();
    assert_eq!(reg.deserializers.keys().copied().collect::<Vec<u32>>(), vec![2]);
    assert_eq!((reg.deserializers.get(&2).unwrap())(&[1]), Ok(7));
    let info = registry.get_serialization_info("k").unwrap();
    assert_eq!(info.key_version, 2);
    assert!(!info.local_only);
    assert_eq!((info.serialize_fn.unwrap())(&5), Ok(vec![5]));
}

#[test]
fn local_keys_have_no_decoder() {
    let mut global: Global = GlobalRegistry::new();
    try_register_local(&mut global, "here", test_val()).unwrap();
    let registry = global.registry();
    assert!(registry.is_local_key("here"));
    assert!(registry.registration("here").unwrap().deserializers.is_empty());
    assert!(!registry.is_local_key("elsewhere"));
}

#[test]
fn migrations_are_added_next_to_the_native_decoder() {
    let mut global: Global = GlobalRegistry::new();
    try_register_with(&mut global, "k", test_val(), decode_first as Dec, |o: Options| {
        o.version(2)
    })
    .unwrap();
    try_register_migration(&mut global, "k", test_val(), 1, decode_seven as Dec).unwrap();
    let registry = global.registry();
    let reg = registry.registration("k").unwrap();
    assert_eq!((reg.deserializers.get(&1).unwrap())(&[9]), Ok(7));
    assert_eq!((reg.deserializers.get(&2).unwrap())(&[9]), Ok(9));
}

#[test]
fn migrations_are_refused() {
    let mut global: Global = GlobalRegistry::new();
    let err = try_register_migration(&mut global, "none", test_val(), 1, decode_seven as Dec)
        .unwrap_err();
    assert!(matches!(err, ContextError::NotRegistered(_)));
    assert_eq!(err.message(), "context key 'none' is not registered");

    try_register(&mut global, "k", test_val(), decode_first as Dec).unwrap();
    let err = try_register_migration(&mut global, "k", other_val(), 3, decode_seven as Dec)
        .unwrap_err();
    assert!(matches!(err, ContextError::TypeMismatch(_, _, _)));
    assert_eq!(
        err.message(),
        "type mismatch for key 'k': expected TestVal, got OtherVal"
    );

    let err = try_register_migration(&mut global, "k", test_val(), 1, decode_seven as Dec)
        .unwrap_err();
    assert!(matches!(err, ContextError::DeserializationFailed(_)));
}

#[test]
fn frozen_registry_refuses_changes() {
    let mut global: Global = GlobalRegistry::new();
    let mut builder: RegistryBuilder<Enc, Dec, &'static str> = RegistryBuilder::new();
    builder.register("k", test_val(), decode_first as Dec);
    initialize(&mut global, builder);
    assert!(global.registry().is_registered("k"));

    let err = try_initialize(&mut global, RegistryBuilder::new()).unwrap_err();
    assert!(matches!(err, ContextError::RegistryFrozen));
    assert_eq!(err.message(), "context registry is already frozen");

    // What is collected after that does not show.
    try_register(&mut global, "later", test_val(), decode_first as Dec).unwrap();
    assert!(!global.registry().is_registered("later"));
    assert!(global.registry().is_registered("k"));
}

#[test]
fn closed_registry_refuses_registrations() {
    let mut global: Global = GlobalRegistry::new();
    global.build = None;
    let err = try_register(&mut global, "k", test_val(), decode_first as Dec).unwrap_err();
    assert!(matches!(err, ContextError::RegistryFrozen));
    let err = try_register_local(&mut global, "k", test_val()).unwrap_err();
    assert!(matches!(err, ContextError::RegistryFrozen));
    let err = try_register_migration(&mut global, "k", test_val(), 1, decode_seven as Dec)
        .unwrap_err();
    assert!(matches!(err, ContextError::RegistryFrozen));
    assert!(!global.registry().is_registered("k"));
}

#[test]
fn metadata_is_listed_with_its_key() {
    let mut builder: RegistryBuilder<Enc, Dec, &'static str> = RegistryBuilder::new();
    builder.register_with("a", test_val(), decode_first as Dec, |o: Options| {
        o.with_metadata("about a")
    });
    builder.register("b", test_val(), decode_first as Dec);
    builder.register_with("c", test_val(), decode_first as Dec, |o: Options| {
        o.with_metadata("about c").cached()
    });
    let map = builder.into_map();
    let registry = Registry::new(&map);
    let mut listed = registry.keys_with_metadata(|key, about| (key, *about));
    listed.sort();
    assert_eq!(listed, vec![("a", "about a"), ("c", "about c")]);
    assert_eq!(registry.cached_keys(), vec!["c"]);
}
