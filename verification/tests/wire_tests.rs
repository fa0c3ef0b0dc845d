//! The bytes of contexts, and what is said of bytes that cannot be read.

use std::any::TypeId;
use std::sync::Arc;

use dcontext::config::{check_size, set_max_context_size, Config};
use dcontext::error::ContextError;
use dcontext::key_map::KeyMap;
use dcontext::registry::{
    RegistrationOptions, Registry, RegistryBuilder, RegistryMap,
};
use dcontext::snapshot::{deserialize_to_snapshot, ContextSnapshot};
use dcontext::value::{ContextValue, TypeInfo, TypedValue};
use dcontext::wire::{
    deserialize_entry, deserialize_wire, encode_value, make_wire_bytes, make_wire_bytes_v,
    serialize_from, WIRE_VERSION,
};

struct Byte;
struct Other;

#[derive(Clone, Debug, PartialEq)]
struct Value(u8);

impl ContextValue for Value {
    fn serialize_value(&self) -> Result<Vec<u8>, ContextError> {
        if self.0 == 0 {
            Err(ContextError::SerializationFailed("zero".to_string()))
        } else {
            Ok(vec![self.0])
        }
    }
}

type Enc = fn(&Value) -> Result<Vec<u8>, String>;
type Dec = fn(&[u8]) -> Result<Value, String>;
type Options = RegistrationOptions<Enc, Dec, ()>;

fn encode_twice(value: &Value) -> Result<Vec<u8>, String> {
    if value.0 == 0 {
        Err("custom zero".to_string())
    } else {
        Ok(vec![value.0, value.0])
    }
}

fn decode_first(bytes: &[u8]) -> Result<Value, String> {
    match bytes.first() {
        Some(byte) => Ok(Value(*byte)),
        None => Err("no byte".to_string()),
    }
}

fn byte() -> TypeInfo {
    TypeInfo { id: TypeId::of::<Byte>(), name: "Byte" }
}

fn typed(value: u8) -> Arc<TypedValue<Value>> {
    Arc::new(TypedValue::new(TypeId::of::<Byte>(), Value(value)))
}

fn registered() -> RegistryMap<Enc, Dec, ()> {
    let mut b: RegistryBuilder<Enc, Dec, ()> = RegistryBuilder::new();
    b.register("k", byte(), decode_first as Dec);
    b.register_with("v3", byte(), decode_first as Dec, |o: Options| o.version(3));
    b.register_with("twice", byte(), decode_first as Dec, |o: Options| {
        o.codec(encode_twice as Enc, decode_first as Dec)
    });
    b.register_local("here", byte());
    b.into_map()
}

fn one(key: &'static str, value: u8) -> KeyMap<Arc<TypedValue<Value>>> {
    let mut values = KeyMap::new();
    values.insert(key, typed(value));
    values
}

fn bytes_of(key: &'static str, value: u8, chain: Vec<String>) -> Vec<u8> {
    let map = registered();
    serialize_from(&Registry::new(&map), &Config::new(), &one(key, value), chain).unwrap()
}

#[test]
fn bytes_are_laid_out_field_by_field() {
    let expected: Vec<u8> = vec![
        2, 0, 0, 0, // format version
        1, 0, 0, 0, 0, 0, 0, 0, // one entry
        1, 0, 0, 0, 0, 0, 0, 0, b'k', // its key
        1, 0, 0, 0, // its version
        1, 0, 0, 0, 0, 0, 0, 0, 9, // its value
        1, 0, 0, 0, 0, 0, 0, 0, // one scope name
        2, 0, 0, 0, 0, 0, 0, 0, b'a', b'b', // the name
    ];
    assert_eq!(bytes_of("k", 9, vec!["ab".to_string()]), expected);
    assert_eq!(WIRE_VERSION, 2);
}

#[test]
fn native_version_and_codec_are_written() {
    assert_eq!(bytes_of("v3", 5, Vec::new()), make_wire_bytes("v3", 3, &[5]));
    assert_eq!(bytes_of("twice", 5, Vec::new()), make_wire_bytes("twice", 1, &[5, 5]));
    // A key without a registration is written in version 1.
    assert_eq!(bytes_of("unknown", 5, Vec::new()), make_wire_bytes("unknown", 1, &[5]));
}

#[test]
fn local_values_are_left_out() {
    let map = registered();
    let mut values = one("here", 1);
    values.insert("k", typed(2));
    let bytes =
        serialize_from(&Registry::new(&map), &Config::new(), &values, Vec::new()).unwrap();
    assert_eq!(bytes, make_wire_bytes("k", 1, &[2]));
}

#[test]
fn errors_of_encoders_are_passed_on() {
    let map = registered();
    let registry = Registry::new(&map);
    let config = Config::new();
    let err = serialize_from(&registry, &config, &one("k", 0), Vec::new()).unwrap_err();
    assert_eq!(err.message(), "serialization failed: zero");
    let err = serialize_from(&registry, &config, &one("twice", 0), Vec::new()).unwrap_err();
    assert_eq!(err.message(), "serialization failed: custom zero");

    let wrong = TypedValue::new(TypeId::of::<Other>(), Value(1));
    let err = encode_value(&registry, "twice", &wrong).unwrap_err();
    assert_eq!(err.message(), "serialization failed: type mismatch during custom serialization");
    assert_eq!(encode_value(&registry, "k", &wrong).unwrap(), vec![1]);
}

#[test]
fn size_limit_counts_all_bytes() {
    let map = registered();
    let registry = Registry::new(&map);
    let size = bytes_of("k", 9, Vec::new()).len();
    let mut config = Config::new();
    set_max_context_size(&mut config, size);
    assert!(serialize_from(&registry, &config, &one("k", 9), Vec::new()).is_ok());
    set_max_context_size(&mut config, size - 1);
    let err = serialize_from(&registry, &config, &one("k", 9), Vec::new()).unwrap_err();
    assert_eq!(
        err.message(),
        format!("context size exceeds limit: {} bytes > {} bytes", size, size - 1)
    );
    assert!(check_size(&config, size - 1).is_ok());
    assert!(check_size(&config, size).is_err());
}

#[test]
fn entries_are_restored_or_refused() {
    let map = registered();
    let registry = Registry::new(&map);
    let (key, value) = deserialize_entry(&registry, &("k".to_string(), 1, vec![7]))
        .unwrap()
        .unwrap();
    assert_eq!(key, "k");
    assert_eq!(value.value, Value(7));
    assert!(value.is_type(&TypeId::of::<Byte>()));

    let passed_over: Result<Option<(&'static str, Arc<TypedValue<Value>>)>, ContextError> =
        deserialize_entry(&registry, &("unknown".to_string(), 1, vec![7]));
    assert!(passed_over.unwrap().is_none());
    assert!(deserialize_entry(&registry, &("here".to_string(), 1, vec![7])).unwrap().is_none());

    let err = deserialize_entry(&registry, &("v3".to_string(), 2, vec![7])).err().unwrap();
    assert_eq!(
        err.message(),
        "deserialization failed: no deserializer for key 'v3' wire version 2 (registered versions: [3])"
    );
    let err = deserialize_entry(&registry, &("k".to_string(), 1, vec![])).err().unwrap();
    assert_eq!(err.message(), "deserialization failed: no byte");
}

#[test]
fn format_versions_one_and_two_are_read() {
    for version in [1, 2] {
        let bytes = make_wire_bytes_v(version, "k", 1, &[4]);
        let (entries, chain) = deserialize_wire(&bytes).unwrap();
        assert_eq!(entries, vec![("k".to_string(), 1, vec![4])]);
        assert!(chain.is_empty());
    }
    let err = deserialize_wire(&make_wire_bytes_v(3, "k", 1, &[4])).unwrap_err();
    assert_eq!(
        err.message(),
        "deserialization failed: unsupported wire version: 3 (this library supports versions 1 and 2)"
    );
}

#[test]
fn cut_bytes_are_refused_and_longer_ones_read() {
    let map = registered();
    let registry = Registry::new(&map);
    let bytes = bytes_of("k", 9, vec!["name".to_string()]);
    for len in 0..bytes.len() {
        let result: Result<ContextSnapshot<Value>, ContextError> =
            deserialize_to_snapshot(&registry, &bytes[..len]);
        assert!(matches!(result, Err(ContextError::DeserializationFailed(_))));
    }
    let mut longer = bytes.clone();
    longer.extend_from_slice(&[1, 2, 3]);
    let snap: ContextSnapshot<Value> = deserialize_to_snapshot(&registry, &longer).unwrap();
    assert_eq!(snap.get_value("k").unwrap().value, Value(9));
    assert_eq!(snap.scope_chain(), &["name".to_string()]);
}

#[test]
fn later_entries_of_a_key_win() {
    let map = registered();
    let registry = Registry::new(&map);
    let first = make_wire_bytes("k", 1, &[1]);
    let second = make_wire_bytes("k", 1, &[2]);
    // Two entries: the count, then the entries of both byte strings.
    let mut bytes = vec![2, 0, 0, 0, 2, 0, 0, 0, 0, 0, 0, 0];
    bytes.extend_from_slice(&first[12..first.len() - 8]);
    bytes.extend_from_slice(&second[12..second.len() - 8]);
    bytes.extend_from_slice(&[0; 8]);
    let snap: ContextSnapshot<Value> = deserialize_to_snapshot(&registry, &bytes).unwrap();
    assert_eq!(snap.get_value("k").unwrap().value, Value(2));
}

#[test]
fn messages_name_what_went_wrong() {
    assert_eq!(
        ContextError::NotRegistered("k".to_string()).message(),
        "context key 'k' is not registered"
    );
    assert_eq!(
        ContextError::AlreadyRegistered("k".to_string()).message(),
        "context key 'k' is already registered with a different type"
    );
    assert_eq!(
        ContextError::TypeMismatch("k".to_string(), "A".to_string(), "B".to_string()).message(),
        "type mismatch for key 'k': expected A, got B"
    );
    assert_eq!(
        ContextError::ContextTooLarge { size: 1205, limit: 90 }.message(),
        "context size exceeds limit: 1205 bytes > 90 bytes"
    );
}

#[test]
fn first_entry_that_fails_decides() {
    let map = registered();
    let registry = Registry::new(&map);
    let entry = |key: &str, version: u32, value: &[u8]| {
        let bytes = make_wire_bytes(key, version, value);
        bytes[12..bytes.len() - 8].to_vec()
    };
    let read = |entries: Vec<Vec<u8>>| {
        let mut bytes: Vec<u8> = vec![2, 0, 0, 0];
        bytes.extend_from_slice(&(entries.len() as u64).to_le_bytes());
        for entry in entries {
            bytes.extend_from_slice(&entry);
        }
        bytes.extend_from_slice(&[0; 8]);
        let result: Result<ContextSnapshot<Value>, ContextError> =
            deserialize_to_snapshot(&registry, &bytes);
        match result {
            Err(ContextError::DeserializationFailed(why)) => why,
            _ => panic!("bytes were read"),
        }
    };
    let good = entry("twice", 1, &[7]);
    let empty = entry("k", 1, &[]);
    let unknown = entry("v3", 9, &[1]);
    assert_eq!(read(vec![good.clone(), empty.clone(), unknown.clone()]), "no byte");
    assert!(read(vec![good, unknown, empty]).contains("wire version 9"));
}
