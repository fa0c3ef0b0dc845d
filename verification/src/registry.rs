//! Which keys there are: the type of each, how its values are encoded and
//! decoded, and whether they leave the process.

use std::any::TypeId;
use std::collections::HashMap;
use vstd::prelude::*;
use vstd::string::*;

use crate::error::{ContextError, ErrorView};
use crate::key_map::KeyMap;
use crate::text::append_decimal;
use crate::value::{same_type, TypeInfo};

verus! {

/// What is known of a registered key. `E` encodes values, `D` decodes them, and
/// `M` is whatever else a user attaches to a key.
pub struct Registration<E, D, M> {
    pub key: &'static str,
    pub type_id: TypeId,
    /// The version that values are written with.
    pub key_version: u32,
    /// The decoder for each version that can be read.
    pub deserializers: HashMap<u32, D>,
    pub value_type: &'static str,
    /// Whether values of this key stay in the process.
    pub local_only: bool,
    /// Whether a new scope starts with the value of this key.
    pub cached: bool,
    /// The encoder, where it is not the default one.
    pub serialize_fn: Option<E>,
    pub metadata: Option<M>,
}

/// A registration as its meaning, without how it is stored.
#[verifier::ext_equal]
#[verifier::reject_recursive_types(E)]
#[verifier::reject_recursive_types(D)]
#[verifier::reject_recursive_types(M)]
pub struct RegistrationView<E, D, M> {
    pub type_id: TypeId,
    pub value_type: Seq<char>,
    pub key_version: u32,
    pub deserializers: Map<u32, D>,
    pub local_only: bool,
    pub cached: bool,
    pub serialize_fn: Option<E>,
    pub metadata: Option<M>,
}

impl<E, D, M> View for Registration<E, D, M> {
    type V = RegistrationView<E, D, M>;

    open spec fn view(&self) -> RegistrationView<E, D, M> {
        RegistrationView {
            type_id: self.type_id,
            value_type: self.value_type@,
            key_version: self.key_version,
            deserializers: self.deserializers@,
            local_only: self.local_only,
            cached: self.cached,
            serialize_fn: self.serialize_fn,
            metadata: self.metadata,
        }
    }
}

impl<E, D, M> RegistrationView<E, D, M> {
    /// A key that stays in the process has no codec; any other key can be read
    /// in the version that it is written with.
    pub open spec fn wf(self) -> bool {
        if self.local_only {
            self.deserializers == Map::<u32, D>::empty() && self.serialize_fn is None
        } else {
            self.deserializers.contains_key(self.key_version)
        }
    }
}

/// How a key is to be registered.
pub struct RegistrationOptions<E, D, M> {
    pub version: u32,
    pub local_only: bool,
    pub cached: bool,
    pub encode: Option<E>,
    pub decode: Option<D>,
    pub metadata: Option<M>,
}

impl<E, D, M> RegistrationOptions<E, D, M> {
    /// The options that a configuration starts from.
    pub open spec fn fresh() -> Self {
        RegistrationOptions {
            version: 1,
            local_only: false,
            cached: false,
            encode: None,
            decode: None,
            metadata: None,
        }
    }

    /// The default options: version 1 and the default codec.
    pub fn new() -> (r: Self)
        ensures
            r == Self::fresh(),
    {
        RegistrationOptions {
            version: 1,
            local_only: false,
            cached: false,
            encode: None,
            decode: None,
            metadata: None,
        }
    }

    /// Set the version that values are written with.
    pub fn version(self, v: u32) -> (r: Self)
        ensures
            r == (RegistrationOptions { version: v, ..self }),
    {
        RegistrationOptions { version: v, ..self }
    }

    /// Keep values of the key in the process: they go neither into captured
    /// snapshots nor onto the wire.
    pub fn local_only(self) -> (r: Self)
        ensures
            r == (RegistrationOptions { local_only: true, ..self }),
    {
        RegistrationOptions { local_only: true, ..self }
    }

    /// Let a new scope start with the value of the key, so that reading it does
    /// not walk the scopes around.
    pub fn cached(self) -> (r: Self)
        ensures
            r == (RegistrationOptions { cached: true, ..self }),
    {
        RegistrationOptions { cached: true, ..self }
    }

    /// Use another codec than the default one.
    pub fn codec(self, encode: E, decode: D) -> (r: Self)
        ensures
            r == (RegistrationOptions { encode: Some(encode), decode: Some(decode), ..self }),
    {
        RegistrationOptions { encode: Some(encode), decode: Some(decode), ..self }
    }

    /// Attach metadata to the key.
    pub fn with_metadata(self, metadata: M) -> (r: Self)
        ensures
            r == (RegistrationOptions { metadata: Some(metadata), ..self }),
    {
        RegistrationOptions { metadata: Some(metadata), ..self }
    }
}

/// The registrations of a registry, by key.
pub type Registrations<E, D, M> = Map<Seq<char>, RegistrationView<E, D, M>>;

/// The outcome of an operation, with the error as characters.
pub open spec fn outcome<T>(result: Result<T, ContextError>) -> Result<T, ErrorView> {
    match result {
        Ok(value) => Ok(value),
        Err(error) => Err(error@),
    }
}

/// What registering a key gives: the registrations afterwards, and the answer.
/// An entry that stays in the process takes neither a codec nor a version.
/// Registering a key again with the same type changes nothing, and with
/// another type is refused.
pub open spec fn registered_with<E, D, M>(
    before: Registrations<E, D, M>,
    key: Seq<char>,
    ty: TypeInfo,
    options: RegistrationOptions<E, D, M>,
    default_decode: D,
) -> (Registrations<E, D, M>, Result<(), ErrorView>) {
    if options.local_only && (options.encode is Some || options.decode is Some) {
        (
            before,
            Err(
                ErrorView::SerializationFailed(
                    "local_only and codec are mutually exclusive: local-only entries are excluded from serialization"@,
                ),
            ),
        )
    } else if options.local_only && options.version != 1 {
        (
            before,
            Err(
                ErrorView::SerializationFailed(
                    "local_only and version are mutually exclusive: local-only entries have no wire format"@,
                ),
            ),
        )
    } else if before.contains_key(key) {
        if before[key].type_id == ty.id {
            (before, Ok(()))
        } else {
            (before, Err(ErrorView::AlreadyRegistered(key)))
        }
    } else {
        let decoder = match options.decode {
            Some(decode) => decode,
            None => default_decode,
        };
        (
            before.insert(
                key,
                RegistrationView {
                    type_id: ty.id,
                    value_type: ty.name@,
                    key_version: options.version,
                    deserializers: if options.local_only {
                        Map::<u32, D>::empty()
                    } else {
                        Map::<u32, D>::empty().insert(options.version, decoder)
                    },
                    local_only: options.local_only,
                    cached: options.cached,
                    serialize_fn: options.encode,
                    metadata: options.metadata,
                },
            ),
            Ok(()),
        )
    }
}

/// What registering a key for values without any encoding gives.
pub open spec fn registered_local<E, D, M>(
    before: Registrations<E, D, M>,
    key: Seq<char>,
    ty: TypeInfo,
) -> (Registrations<E, D, M>, Result<(), ErrorView>) {
    if before.contains_key(key) {
        if before[key].type_id == ty.id {
            (before, Ok(()))
        } else {
            (before, Err(ErrorView::AlreadyRegistered(key)))
        }
    } else {
        (
            before.insert(
                key,
                RegistrationView {
                    type_id: ty.id,
                    value_type: ty.name@,
                    key_version: 0,
                    deserializers: Map::<u32, D>::empty(),
                    local_only: true,
                    cached: false,
                    serialize_fn: None,
                    metadata: None,
                },
            ),
            Ok(()),
        )
    }
}

/// What registering a decoder for an older version of a key gives. The decoder
/// for the version that is written cannot be replaced.
pub open spec fn registered_migration<E, D, M>(
    before: Registrations<E, D, M>,
    key: Seq<char>,
    current: TypeInfo,
    old_version: u32,
    decoder: D,
) -> (Registrations<E, D, M>, Result<(), ErrorView>) {
    if !before.contains_key(key) {
        (before, Err(ErrorView::NotRegistered(key)))
    } else {
        let reg = before[key];
        if reg.type_id != current.id {
            (before, Err(ErrorView::TypeMismatch(key, reg.value_type, current.name@)))
        } else if reg.local_only {
            (
                before,
                Err(
                    ErrorView::SerializationFailed(
                        "cannot register migration for local-only key '"@ + key + "'"@,
                    ),
                ),
            )
        } else if old_version == reg.key_version {
            (
                before,
                Err(
                    ErrorView::DeserializationFailed(
                        "cannot register migration for key '"@ + key + "' at current version "@
                            + crate::text::decimal(old_version as nat)
                            + " (would overwrite the native deserializer)"@,
                    ),
                ),
            )
        } else {
            (
                before.insert(
                    key,
                    RegistrationView {
                        deserializers: reg.deserializers.insert(old_version, decoder),
                        ..reg
                    },
                ),
                Ok(()),
            )
        }
    }
}

/// A set of registrations.
pub struct RegistryMap<E, D, M> {
    entries: KeyMap<Registration<E, D, M>>,
}

/// The registrations that stored entries stand for.
spec fn entry_views<E, D, M>(
    entries: Map<Seq<char>, Registration<E, D, M>>,
) -> Registrations<E, D, M> {
    entries.map_values(|reg: Registration<E, D, M>| reg@)
}

/// Each entry is stored under its own key, and is sound.
spec fn entries_wf<E, D, M>(entries: Map<Seq<char>, Registration<E, D, M>>) -> bool {
    forall|key: Seq<char>| #[trigger]
        entries.contains_key(key) ==> entries[key].key@ == key && entries[key]@.wf()
}

impl<E, D, M> View for RegistryMap<E, D, M> {
    type V = Registrations<E, D, M>;

    closed spec fn view(&self) -> Registrations<E, D, M> {
        entry_views(self.entries@)
    }
}

/// Keep a registration under its key.
fn store_registration<E, D, M>(
    entries: &mut KeyMap<Registration<E, D, M>>,
    reg: Registration<E, D, M>,
)
    requires
        entries_wf(old(entries)@),
        reg@.wf(),
    ensures
        entries_wf(final(entries)@),
        entry_views(final(entries)@) == entry_views(old(entries)@).insert(reg.key@, reg@),
{
    let ghost before = entries@;
    let key = reg.key;
    let _ = entries.insert(key, reg);
    proof {
        assert(entry_views(entries@) =~= entry_views(before).insert(key@, reg@));
        assert forall|k: Seq<char>| #[trigger] entries@.contains_key(k) implies entries@[k].key@ == k
            && entries@[k]@.wf() by {
            if k != key@ {
                assert(before.contains_key(k));
            }
        }
    }
}

impl<E, D, M> RegistryMap<E, D, M> {
    #[verifier::type_invariant]
    spec fn sound(&self) -> bool {
        entries_wf(self.entries@)
    }

    /// A set without registrations.
    pub fn new() -> (r: Self)
        ensures
            r@ == Map::<Seq<char>, RegistrationView<E, D, M>>::empty(),
    {
        let entries: KeyMap<Registration<E, D, M>> = KeyMap::new();
        assert(entry_views(entries@) =~= Map::<Seq<char>, RegistrationView<E, D, M>>::empty());
        RegistryMap { entries }
    }

    /// The registration of a key.
    pub fn get(&self, key: &str) -> (r: Option<&Registration<E, D, M>>)
        ensures
            match r {
                Some(reg) => self@.contains_key(key@) && self@[key@] == reg@ && reg.key@ == key@
                    && reg@.wf(),
                None => !self@.contains_key(key@),
            },
    {
        proof {
            use_type_invariant(self);
        }
        self.entries.get(key)
    }

    /// Whether a key is registered.
    pub fn contains_key(&self, key: &str) -> (r: bool)
        ensures
            r == self@.contains_key(key@),
    {
        self.get(key).is_some()
    }

    /// Register a key, with the options that `configure` makes of the default
    /// ones.
    fn do_register_with<C>(
        &mut self,
        key: &'static str,
        ty: TypeInfo,
        default_decode: D,
        configure: C,
    ) -> (r: Result<(), ContextError>) where
        C: FnOnce(RegistrationOptions<E, D, M>) -> RegistrationOptions<E, D, M>,

        requires
            configure.requires((RegistrationOptions::fresh(),)),
        ensures
            exists|options: RegistrationOptions<E, D, M>|
                configure.ensures((RegistrationOptions::fresh(),), options) && (
                final(self)@,
                outcome(r),
            ) == #[trigger] registered_with(old(self)@, key@, ty, options, default_decode),
    {
        let options = configure(RegistrationOptions::new());
        let ghost opts = options;
        let ghost before = self@;
        let ghost goal = registered_with(before, key@, ty, opts, default_decode);
        if options.local_only {
            if options.encode.is_some() || options.decode.is_some() {
                let r = Err(
                    ContextError::SerializationFailed(
                        "local_only and codec are mutually exclusive: local-only entries are excluded from serialization".to_owned(),
                    ),
                );
                assert((self@, outcome(r)) == goal);
                return r;
            }
            if options.version != 1 {
                let r = Err(
                    ContextError::SerializationFailed(
                        "local_only and version are mutually exclusive: local-only entries have no wire format".to_owned(),
                    ),
                );
                assert((self@, outcome(r)) == goal);
                return r;
            }
        }
        match self.get(key) {
            Some(existing) => {
                let r = if same_type(&existing.type_id, &ty.id) {
                    Ok(())
                } else {
                    Err(ContextError::AlreadyRegistered(key.to_owned()))
                };
                assert((self@, outcome(r)) == goal);
                return r;
            },
            None => {},
        }
        let mut deserializers: HashMap<u32, D> = HashMap::new();
        if !options.local_only {
            match options.decode {
                Some(decode) => {
                    let _ = deserializers.insert(options.version, decode);
                },
                None => {
                    let _ = deserializers.insert(options.version, default_decode);
                },
            }
        }
        let reg = Registration {
            key,
            type_id: ty.id,
            key_version: options.version,
            deserializers,
            value_type: ty.name,
            local_only: options.local_only,
            cached: options.cached,
            serialize_fn: options.encode,
            metadata: options.metadata,
        };
        proof {
            use_type_invariant(&*self);
        }
        let mut entries: KeyMap<Registration<E, D, M>> = KeyMap::new();
        std::mem::swap(&mut entries, &mut self.entries);
        store_registration(&mut entries, reg);
        self.entries = entries;
        let r: Result<(), ContextError> = Ok(());
        assert((self@, outcome(r)) == goal);
        r
    }

    /// Register a key for values without any encoding.
    fn do_register_local(&mut self, key: &'static str, ty: TypeInfo) -> (r: Result<
        (),
        ContextError,
    >)
        ensures
            (final(self)@, outcome(r)) == registered_local(old(self)@, key@, ty),
    {
        match self.get(key) {
            Some(existing) => {
                if same_type(&existing.type_id, &ty.id) {
                    return Ok(());
                }
                return Err(ContextError::AlreadyRegistered(key.to_owned()));
            },
            None => {},
        }
        let reg = Registration {
            key,
            type_id: ty.id,
            key_version: 0,
            deserializers: HashMap::new(),
            value_type: ty.name,
            local_only: true,
            cached: false,
            serialize_fn: None,
            metadata: None,
        };
        proof {
            use_type_invariant(&*self);
        }
        let mut entries: KeyMap<Registration<E, D, M>> = KeyMap::new();
        std::mem::swap(&mut entries, &mut self.entries);
        store_registration(&mut entries, reg);
        self.entries = entries;
        Ok(())
    }

    /// Register a decoder for values of a key in an older version.
    fn do_register_migration(
        &mut self,
        key: &'static str,
        current: TypeInfo,
        old_version: u32,
        decoder: D,
    ) -> (r: Result<(), ContextError>)
        ensures
            (final(self)@, outcome(r)) == registered_migration(
                old(self)@,
                key@,
                current,
                old_version,
                decoder,
            ),
    {
        let ghost before = self@;
        match self.get(key) {
            None => {
                return Err(ContextError::NotRegistered(key.to_owned()));
            },
            Some(reg) => {
                if !same_type(&reg.type_id, &current.id) {
                    return Err(
                        ContextError::TypeMismatch(
                            key.to_owned(),
                            reg.value_type.to_owned(),
                            current.name.to_owned(),
                        ),
                    );
                }
                if reg.local_only {
                    let mut why: String = String::new();
                    why.append("cannot register migration for local-only key '");
                    why.append(key);
                    why.append("'");
                    assert(why@ =~= "cannot register migration for local-only key '"@ + key@
                        + "'"@);
                    return Err(ContextError::SerializationFailed(why));
                }
                if old_version == reg.key_version {
                    let mut why: String = String::new();
                    why.append("cannot register migration for key '");
                    why.append(key);
                    why.append("' at current version ");
                    append_decimal(&mut why, old_version as usize);
                    why.append(" (would overwrite the native deserializer)");
                    assert(why@ =~= "cannot register migration for key '"@ + key@
                        + "' at current version "@ + crate::text::decimal(old_version as nat)
                        + " (would overwrite the native deserializer)"@);
                    return Err(ContextError::DeserializationFailed(why));
                }
            },
        }
        proof {
            use_type_invariant(&*self);
        }
        let mut entries: KeyMap<Registration<E, D, M>> = KeyMap::new();
        std::mem::swap(&mut entries, &mut self.entries);
        let ghost stored = entries@;
        match entries.remove(key) {
            Some(reg) => {
                let mut reg = reg;
                assert(stored.contains_key(key@));
                assert(entry_views(stored) == before);
                assert(entries_wf(entries@)) by {
                    assert forall|k: Seq<char>| #[trigger]
                        entries@.contains_key(k) implies entries@[k].key@ == k
                        && entries@[k]@.wf() by {
                        assert(stored.contains_key(k));
                    }
                }
                let ghost old_reg = reg@;
                let _ = reg.deserializers.insert(old_version, decoder);
                let ghost new_reg = reg@;
                assert(new_reg == RegistrationView {
                    deserializers: old_reg.deserializers.insert(old_version, decoder),
                    ..old_reg
                });
                store_registration(&mut entries, reg);
                assert(entry_views(entries@) =~= before.insert(key@, new_reg));
            },
            None => {},
        }
        self.entries = entries;
        Ok(())
    }
}

/// The keys whose value a new scope starts with.
pub open spec fn cached_set<E, D, M>(registrations: Registrations<E, D, M>) -> Set<Seq<char>> {
    Set::new(|key: Seq<char>| registrations.contains_key(key) && registrations[key].cached)
}

/// The keys that carry metadata.
pub open spec fn metadata_set<E, D, M>(registrations: Registrations<E, D, M>) -> Set<Seq<char>> {
    Set::new(
        |key: Seq<char>| registrations.contains_key(key) && registrations[key].metadata is Some,
    )
}

/// Whether values of a key stay in the process.
pub open spec fn is_local<E, D, M>(registrations: Registrations<E, D, M>, key: Seq<char>) -> bool {
    registrations.contains_key(key) && registrations[key].local_only
}

/// Whether a key is registered with a type.
pub open spec fn has_type<E, D, M>(
    registrations: Registrations<E, D, M>,
    key: Seq<char>,
    type_id: TypeId,
) -> bool {
    registrations.contains_key(key) && registrations[key].type_id == type_id
}

/// Every registration of a registry is sound.
pub open spec fn registrations_wf<E, D, M>(registrations: Registrations<E, D, M>) -> bool {
    forall|key: Seq<char>| #[trigger] registrations.contains_key(key) ==> registrations[key].wf()
}

impl<E, D, M> RegistryMap<E, D, M> {
    /// The keys whose value a new scope starts with.
    fn cached_keys(&self) -> (r: Vec<&'static str>)
        ensures
            crate::store::key_set(r@) == cached_set(self@),
    {
        proof {
            use_type_invariant(self);
        }
        let mut keys: Vec<&'static str> = Vec::new();
        let ghost mut places: Seq<int> = Seq::empty();
        let count = self.entries.len();
        let ghost entries = self.entries.entry_seq();
        let mut i: usize = 0;
        while i < count
            invariant
                i <= count,
                count == entries.len(),
                entries == self.entries.entry_seq(),
                places.len() == keys@.len(),
                forall|a: int|
                    #![trigger places[a]]
                    0 <= a < places.len() ==> 0 <= places[a] < i && entries[places[a]].0
                        == keys@[a]@ && entries[places[a]].1.cached,
                forall|j: int|
                    0 <= j < i && (#[trigger] entries[j]).1.cached ==> places.contains(j),
            decreases count - i,
        {
            let ghost places_before = places;
            if self.entries.value_at(i).cached {
                keys.push(self.entries.key_at(i));
                proof {
                    places = places.push(i as int);
                    assert(places[places_before.len() as int] == i as int);
                }
            }
            proof {
                lemma_still_contained(places_before, places);
            }
            i = i + 1;
        }
        proof {
            lemma_selected_keys(
                entries,
                self@,
                keys@,
                places,
                |reg: RegistrationView<E, D, M>| reg.cached,
            );
            assert(crate::store::key_set(keys@) =~= cached_set(self@));
        }
        keys
    }

    /// Apply `f` to each key that carries metadata, and to the metadata.
    fn keys_with_metadata<R, F>(&self, f: F) -> (r: Vec<R>) where F: Fn(&'static str, &M) -> R
        requires
            forall|key: &'static str, metadata: &M| f.requires((key, metadata)),
        ensures
            metadata_results(self@, f, r@),
    {
        proof {
            use_type_invariant(self);
        }
        let mut results: Vec<R> = Vec::new();
        let ghost mut keys: Seq<&'static str> = Seq::empty();
        let ghost mut places: Seq<int> = Seq::empty();
        let count = self.entries.len();
        let ghost entries = self.entries.entry_seq();
        let mut i: usize = 0;
        while i < count
            invariant
                forall|key: &'static str, metadata: &M| f.requires((key, metadata)),
                i <= count,
                count == entries.len(),
                entries == self.entries.entry_seq(),
                keys.len() == results@.len(),
                places.len() == keys.len(),
                forall|a: int|
                    #![trigger places[a]]
                    0 <= a < places.len() ==> 0 <= places[a] < i && entries[places[a]].0
                        == keys[a]@ && entries[places[a]].1.metadata is Some && f.ensures(
                        (keys[a], &entries[places[a]].1.metadata->0),
                        results@[a],
                    ),
                forall|a: int, b: int|
                    #![trigger places[a], places[b]]
                    0 <= a < b < places.len() ==> places[a] < places[b],
                forall|j: int|
                    0 <= j < i && (#[trigger] entries[j]).1.metadata is Some ==> places.contains(j),
            decreases count - i,
        {
            let ghost places_before = places;
            match &self.entries.value_at(i).metadata {
                Some(metadata) => {
                    let key = self.entries.key_at(i);
                    let result = f(key, metadata);
                    results.push(result);
                    proof {
                        keys = keys.push(key);
                        places = places.push(i as int);
                        assert(places[places_before.len() as int] == i as int);
                    }
                },
                None => {},
            }
            proof {
                lemma_still_contained(places_before, places);
            }
            i = i + 1;
        }
        proof {
            lemma_selected_keys(
                entries,
                self@,
                keys,
                places,
                |reg: RegistrationView<E, D, M>| reg.metadata is Some,
            );
            assert(crate::store::key_set(keys) =~= metadata_set(self@));
            assert forall|a: int, b: int|
                #![trigger keys[a], keys[b]]
                0 <= a < b < keys.len() implies keys[a]@ != keys[b]@ by {
                assert(places[a] < places[b]);
                assert(entries[places[a]].0 != entries[places[b]].0);
            }
            assert forall|a: int| 0 <= a < keys.len() implies f.ensures(
                (#[trigger] keys[a], &self@[keys[a]@].metadata->0),
                results@[a],
            ) by {
                let j = places[a];
                crate::key_map::lemma_entry_in_map(entries, j);
                assert(self@[keys[a]@] == entries[j].1@);
            }
            assert(metadata_results(self@, f, results@));
        }
        results
    }
}

/// The results of applying a function to every key that carries metadata: one
/// for each such key, in no particular order.
pub open spec fn metadata_results<E, D, M, R, F>(
    registrations: Registrations<E, D, M>,
    f: F,
    results: Seq<R>,
) -> bool where F: Fn(&'static str, &M) -> R {
    exists|keys: Seq<&'static str>|
        {
            &&& keys.len() == results.len()
            &&& #[trigger] crate::store::key_set(keys) == metadata_set(registrations)
            &&& forall|a: int, b: int|
                #![trigger keys[a], keys[b]]
                0 <= a < b < keys.len() ==> keys[a]@ != keys[b]@
            &&& forall|a: int|
                0 <= a < keys.len() ==> f.ensures(
                    (#[trigger] keys[a], &registrations[keys[a]@].metadata->0),
                    results[a],
                )
        }
}

/// A list keeps what it held when an entry is appended.
pub(crate) proof fn lemma_still_contained(before: Seq<int>, after: Seq<int>)
    requires
        after == before || exists|x: int| after == #[trigger] before.push(x),
    ensures
        forall|x: int| before.contains(x) ==> #[trigger] after.contains(x),
        after != before ==> after.contains(after.last()),
{
    assert forall|x: int| before.contains(x) implies #[trigger] after.contains(x) by {
        let a = choose|a: int| 0 <= a < before.len() && before[a] == x;
        assert(after[a] == x);
    }
    if after != before {
        assert(after[before.len() as int] == after.last());
    }
}

/// Keys picked from a list of entries are the keys of the registrations that
/// they were picked by.
proof fn lemma_selected_keys<E, D, M>(
    entries: Seq<(Seq<char>, Registration<E, D, M>)>,
    registrations: Registrations<E, D, M>,
    keys: Seq<&'static str>,
    places: Seq<int>,
    select: spec_fn(RegistrationView<E, D, M>) -> bool,
)
    requires
        crate::key_map::distinct_keys(entries),
        registrations == entry_views(crate::key_map::entries_map(entries)),
        keys.len() == places.len(),
        forall|a: int|
            #![trigger places[a]]
            0 <= a < places.len() ==> 0 <= places[a] < entries.len() && entries[places[a]].0
                == keys[a]@ && select(entries[places[a]].1@),
        forall|j: int|
            0 <= j < entries.len() && select((#[trigger] entries[j]).1@) ==> places.contains(j),
    ensures
        forall|k: Seq<char>| #[trigger]
            crate::store::key_set(keys).contains(k) == (registrations.contains_key(k) && select(
                registrations[k],
            )),
{
    assert forall|k: Seq<char>| #[trigger]
        crate::store::key_set(keys).contains(k) == (registrations.contains_key(k) && select(
            registrations[k],
        )) by {
        if crate::store::key_set(keys).contains(k) {
            let a = choose|a: int| 0 <= a < keys.len() && (#[trigger] keys[a])@ == k;
            crate::key_map::lemma_entry_in_map(entries, places[a]);
        }
        if registrations.contains_key(k) && select(registrations[k]) {
            let j = crate::key_map::key_position(entries, k);
            assert(crate::key_map::has_key(entries, k));
            assert(entries[j].0 == k);
            crate::key_map::lemma_entry_in_map(entries, j);
            assert(select(entries[j].1@));
            assert(places.contains(j));
            let a = choose|a: int| 0 <= a < places.len() && places[a] == j;
            assert(keys[a]@ == k);
        }
    }
}

/// Leaves the options as they are.
fn keep_options<E, D, M>(options: RegistrationOptions<E, D, M>) -> (r: RegistrationOptions<E, D, M>)
    ensures
        r == options,
{
    options
}

/// Collects registrations at startup, until they are frozen.
pub struct RegistryBuilder<E, D, M> {
    map: RegistryMap<E, D, M>,
}

impl<E, D, M> View for RegistryBuilder<E, D, M> {
    type V = Registrations<E, D, M>;

    closed spec fn view(&self) -> Registrations<E, D, M> {
        self.map@
    }
}

impl<E, D, M> RegistryBuilder<E, D, M> {
    /// A builder without registrations.
    pub fn new() -> (r: Self)
        ensures
            r@ == Map::<Seq<char>, RegistrationView<E, D, M>>::empty(),
    {
        RegistryBuilder { map: RegistryMap::new() }
    }

    /// Register a key with default options. The key must be free, or registered
    /// with the same type.
    pub fn register(&mut self, key: &'static str, ty: TypeInfo, decode: D)
        requires
            old(self)@.contains_key(key@) ==> old(self)@[key@].type_id == ty.id,
        ensures
            final(self)@ == registered_with(
                old(self)@,
                key@,
                ty,
                RegistrationOptions::fresh(),
                decode,
            ).0,
    {
        let _ = self.try_register(key, ty, decode);
    }

    /// Register a key with default options: version 1, and `decode` to read
    /// values.
    pub fn try_register(&mut self, key: &'static str, ty: TypeInfo, decode: D) -> (r: Result<
        (),
        ContextError,
    >)
        ensures
            (final(self)@, outcome(r)) == registered_with(
                old(self)@,
                key@,
                ty,
                RegistrationOptions::fresh(),
                decode,
            ),
    {
        self.map.do_register_with(
            key,
            ty,
            decode,
            keep_options,
        )
    }

    /// Register a key with options. They must be sound together, and the key
    /// free or registered with the same type.
    pub fn register_with<C>(&mut self, key: &'static str, ty: TypeInfo, decode: D, configure: C)
        where C: FnOnce(RegistrationOptions<E, D, M>) -> RegistrationOptions<E, D, M>
        requires
            configure.requires((RegistrationOptions::fresh(),)),
            forall|options: RegistrationOptions<E, D, M>|
                configure.ensures((RegistrationOptions::fresh(),), options) ==> (
                #[trigger] registered_with(old(self)@, key@, ty, options, decode)).1 is Ok,
        ensures
            exists|options: RegistrationOptions<E, D, M>|
                configure.ensures((RegistrationOptions::fresh(),), options) && final(self)@ == (
                #[trigger] registered_with(old(self)@, key@, ty, options, decode)).0,
    {
        let _ = self.try_register_with(key, ty, decode, configure);
    }

    /// Register a key with the options that `configure` makes of the default
    /// ones. `decode` reads values unless the options bring a codec.
    pub fn try_register_with<C>(
        &mut self,
        key: &'static str,
        ty: TypeInfo,
        decode: D,
        configure: C,
    ) -> (r: Result<(), ContextError>) where
        C: FnOnce(RegistrationOptions<E, D, M>) -> RegistrationOptions<E, D, M>,

        requires
            configure.requires((RegistrationOptions::fresh(),)),
        ensures
            exists|options: RegistrationOptions<E, D, M>|
                configure.ensures((RegistrationOptions::fresh(),), options) && (
                final(self)@,
                outcome(r),
            ) == #[trigger] registered_with(old(self)@, key@, ty, options, decode),
    {
        let ghost before = self.map@;
        let r = self.map.do_register_with(key, ty, decode, configure);
        assert(before == old(self)@);
        r
    }

    /// Register a key for values that stay in the process. The key must be
    /// free, or registered with the same type.
    pub fn register_local(&mut self, key: &'static str, ty: TypeInfo)
        requires
            old(self)@.contains_key(key@) ==> old(self)@[key@].type_id == ty.id,
        ensures
            final(self)@ == registered_local(old(self)@, key@, ty).0,
    {
        let _ = self.try_register_local(key, ty);
    }

    /// Register a key for values that stay in the process and need no encoding.
    pub fn try_register_local(&mut self, key: &'static str, ty: TypeInfo) -> (r: Result<
        (),
        ContextError,
    >)
        ensures
            (final(self)@, outcome(r)) == registered_local(old(self)@, key@, ty),
    {
        self.map.do_register_local(key, ty)
    }

    /// Register a decoder for an older version. The key must be registered with
    /// the current type, not local-only, and not written in that version.
    pub fn register_migration(
        &mut self,
        key: &'static str,
        current: TypeInfo,
        old_version: u32,
        decoder: D,
    )
        requires
            old(self)@.contains_key(key@),
            old(self)@[key@].type_id == current.id,
            !old(self)@[key@].local_only,
            old(self)@[key@].key_version != old_version,
        ensures
            final(self)@ == registered_migration(
                old(self)@,
                key@,
                current,
                old_version,
                decoder,
            ).0,
    {
        let _ = self.try_register_migration(key, current, old_version, decoder);
    }

    /// Register a decoder for values of a key in an older version.
    pub fn try_register_migration(
        &mut self,
        key: &'static str,
        current: TypeInfo,
        old_version: u32,
        decoder: D,
    ) -> (r: Result<(), ContextError>)
        ensures
            (final(self)@, outcome(r)) == registered_migration(
                old(self)@,
                key@,
                current,
                old_version,
                decoder,
            ),
    {
        self.map.do_register_migration(key, current, old_version, decoder)
    }

    /// The registrations that were collected.
    pub fn into_map(self) -> (r: RegistryMap<E, D, M>)
        ensures
            r@ == self@,
    {
        self.map
    }
}

impl<E, D, M> Default for RegistryBuilder<E, D, M> {
    fn default() -> (r: Self)
        ensures
            r@ == Map::<Seq<char>, RegistrationView<E, D, M>>::empty(),
    {
        RegistryBuilder::new()
    }
}

/// Decode an older form of a value and bring it to the current one.
pub fn decode_migrated<O, V, P, G>(decode_old: &P, migrate: &G, bytes: &[u8]) -> (r: Result<
    V,
    String,
>) where P: Fn(&[u8]) -> Result<O, String>, G: Fn(O) -> V
    requires
        decode_old.requires((bytes,)),
        forall|old_value: O| migrate.requires((old_value,)),
    ensures
        match r {
            Ok(value) => exists|old_value: O| #[trigger]
                decode_old.ensures((bytes,), Ok(old_value)) && migrate.ensures(
                    (old_value,),
                    value,
                ),
            Err(why) => decode_old.ensures((bytes,), Err(why)),
        },
{
    match decode_old(bytes) {
        Ok(old_value) => Ok(migrate(old_value)),
        Err(why) => Err(why),
    }
}

/// What serializing a value of a key needs to know of it.
pub struct SerializationInfo<'a, E> {
    pub local_only: bool,
    pub key_version: u32,
    pub type_id: TypeId,
    pub serialize_fn: Option<&'a E>,
}

/// Registrations to look keys up in.
pub struct Registry<'a, E, D, M> {
    map: Option<&'a RegistryMap<E, D, M>>,
}

impl<'a, E, D, M> View for Registry<'a, E, D, M> {
    type V = Registrations<E, D, M>;

    closed spec fn view(&self) -> Registrations<E, D, M> {
        match self.map {
            Some(map) => map@,
            None => Map::empty(),
        }
    }
}

impl<'a, E, D, M> Registry<'a, E, D, M> {
    /// A registry without registrations.
    pub fn empty() -> (r: Self)
        ensures
            r@ == Map::<Seq<char>, RegistrationView<E, D, M>>::empty(),
    {
        Registry { map: None }
    }

    /// A registry of the given registrations.
    pub fn new(map: &'a RegistryMap<E, D, M>) -> (r: Self)
        ensures
            r@ == map@,
            registrations_wf(r@),
    {
        proof {
            use_type_invariant(map);
        }
        Registry { map: Some(map) }
    }

    /// The registration of a key.
    pub fn registration(&self, key: &str) -> (r: Option<&'a Registration<E, D, M>>)
        ensures
            match r {
                Some(reg) => self@.contains_key(key@) && self@[key@] == reg@ && reg.key@ == key@
                    && reg@.wf(),
                None => !self@.contains_key(key@),
            },
    {
        match self.map {
            Some(map) => map.get(key),
            None => None,
        }
    }

    /// Apply `f` to the registration of a key.
    pub fn with_registration<R, F>(&self, key: &str, f: F) -> (r: Option<R>) where
        F: FnOnce(&Registration<E, D, M>) -> R,

        requires
            forall|reg: &Registration<E, D, M>| reg@ == self@[key@] ==> f.requires((reg,)),
        ensures
            match r {
                Some(result) => self@.contains_key(key@) && exists|reg: Registration<E, D, M>| #[trigger]
                    reg@ == self@[key@] && reg.key@ == key@ && f.ensures((&reg,), result),
                None => !self@.contains_key(key@),
            },
    {
        match self.registration(key) {
            Some(reg) => Some(f(reg)),
            None => None,
        }
    }

    /// Whether a key is registered.
    pub fn is_registered(&self, key: &str) -> (r: bool)
        ensures
            r == self@.contains_key(key@),
    {
        self.registration(key).is_some()
    }

    /// Whether values of a key stay in the process.
    pub fn is_local_key(&self, key: &str) -> (r: bool)
        ensures
            r == is_local(self@, key@),
    {
        match self.registration(key) {
            Some(reg) => reg.local_only,
            None => false,
        }
    }

    /// Whether a key is registered with the type of a value.
    pub fn is_valid_value(&self, key: &str, type_id: &TypeId) -> (r: bool)
        ensures
            r == has_type(self@, key@, *type_id),
    {
        match self.registration(key) {
            Some(reg) => same_type(&reg.type_id, type_id),
            None => false,
        }
    }

    /// The keys whose value a new scope starts with.
    pub fn cached_keys(&self) -> (r: Vec<&'static str>)
        ensures
            crate::store::key_set(r@) == cached_set(self@),
    {
        match self.map {
            Some(map) => map.cached_keys(),
            None => {
                let keys: Vec<&'static str> = Vec::new();
                assert(crate::store::key_set(keys@) =~= cached_set(self@));
                keys
            },
        }
    }

    /// What serializing a value of a key needs to know of it.
    pub fn get_serialization_info(&self, key: &str) -> (r: Option<SerializationInfo<'a, E>>)
        ensures
            match r {
                Some(info) => {
                    &&& self@.contains_key(key@)
                    &&& info.local_only == self@[key@].local_only
                    &&& info.key_version == self@[key@].key_version
                    &&& info.type_id == self@[key@].type_id
                    &&& match info.serialize_fn {
                        Some(encode) => self@[key@].serialize_fn == Some(*encode),
                        None => self@[key@].serialize_fn is None,
                    }
                },
                None => !self@.contains_key(key@),
            },
    {
        match self.registration(key) {
            Some(reg) => Some(
                SerializationInfo {
                    local_only: reg.local_only,
                    key_version: reg.key_version,
                    type_id: reg.type_id,
                    serialize_fn: reg.serialize_fn.as_ref(),
                },
            ),
            None => None,
        }
    }

    /// Apply `f` to each key that carries metadata, and to the metadata. The
    /// results come in no particular order.
    pub fn keys_with_metadata<R, F>(&self, f: F) -> (r: Vec<R>) where
        F: Fn(&'static str, &M) -> R,

        requires
            forall|key: &'static str, metadata: &M| f.requires((key, metadata)),
        ensures
            metadata_results(self@, f, r@),
    {
        match self.map {
            Some(map) => map.keys_with_metadata(f),
            None => {
                proof {
                    let keys: Seq<&'static str> = Seq::empty();
                    assert(crate::store::key_set(keys) =~= metadata_set(self@));
                }
                Vec::new()
            },
        }
    }
}

/// The registrations of a process: those that are being collected, and those
/// that were frozen.
pub struct GlobalRegistry<E, D, M> {
    pub frozen: Option<RegistryMap<E, D, M>>,
    pub build: Option<RegistryMap<E, D, M>>,
}

impl<E, D, M> View for GlobalRegistry<E, D, M> {
    type V = Registrations<E, D, M>;

    /// The registrations that lookups see: the frozen ones once there are any.
    open spec fn view(&self) -> Registrations<E, D, M> {
        match self.frozen {
            Some(map) => map@,
            None => match self.build {
                Some(map) => map@,
                None => Map::empty(),
            },
        }
    }
}

impl<E, D, M> GlobalRegistry<E, D, M> {
    /// Nothing is registered and nothing frozen.
    pub fn new() -> (r: Self)
        ensures
            r.frozen is None,
            r.build is Some,
            r@ == Map::<Seq<char>, RegistrationView<E, D, M>>::empty(),
    {
        GlobalRegistry { frozen: None, build: Some(RegistryMap::new()) }
    }

    /// The registrations that lookups see.
    pub fn registry(&self) -> (r: Registry<'_, E, D, M>)
        ensures
            r@ == self@,
            registrations_wf(r@),
    {
        match &self.frozen {
            Some(map) => Registry::new(map),
            None => match &self.build {
                Some(map) => Registry::new(map),
                None => Registry::empty(),
            },
        }
    }
}

/// Freeze the registrations of a builder. Nothing may have been frozen before.
pub fn initialize<E, D, M>(global: &mut GlobalRegistry<E, D, M>, builder: RegistryBuilder<E, D, M>)
    requires
        old(global).frozen is None,
    ensures
        final(global).frozen matches Some(map) && map@ == builder@,
        final(global).build == old(global).build,
{
    let _ = try_initialize(global, builder);
}

/// Freeze the registrations of a builder. A second attempt is refused.
pub fn try_initialize<E, D, M>(
    global: &mut GlobalRegistry<E, D, M>,
    builder: RegistryBuilder<E, D, M>,
) -> (r: Result<(), ContextError>)
    ensures
        final(global).build == old(global).build,
        match old(global).frozen {
            Some(_) => outcome(r) == Err::<(), ErrorView>(ErrorView::RegistryFrozen)
                && final(global).frozen == old(global).frozen,
            None => r is Ok && (final(global).frozen matches Some(map) && map@ == builder@),
        },
{
    if global.frozen.is_some() {
        return Err(ContextError::RegistryFrozen);
    }
    global.frozen = Some(builder.into_map());
    Ok(())
}

/// Register a key among the registrations that are being collected.
pub fn try_register_with<E, D, M, C>(
    global: &mut GlobalRegistry<E, D, M>,
    key: &'static str,
    ty: TypeInfo,
    decode: D,
    configure: C,
) -> (r: Result<(), ContextError>) where
    C: FnOnce(RegistrationOptions<E, D, M>) -> RegistrationOptions<E, D, M>,

    requires
        configure.requires((RegistrationOptions::fresh(),)),
    ensures
        final(global).frozen == old(global).frozen,
        match old(global).build {
            Some(before) => (final(global).build matches Some(after) && exists|
                options: RegistrationOptions<E, D, M>,
            |
                configure.ensures((RegistrationOptions::fresh(),), options) && (after@, outcome(r))
                    == #[trigger] registered_with(before@, key@, ty, options, decode)),
            None => final(global).build is None && outcome(r) == Err::<(), ErrorView>(
                ErrorView::RegistryFrozen,
            ),
        },
{
    match global.build.take() {
        Some(map) => {
            let mut map = map;
            let r = map.do_register_with(key, ty, decode, configure);
            global.build = Some(map);
            r
        },
        None => Err(ContextError::RegistryFrozen),
    }
}

/// Register a key with default options among the registrations that are being
/// collected.
pub fn try_register<E, D, M>(
    global: &mut GlobalRegistry<E, D, M>,
    key: &'static str,
    ty: TypeInfo,
    decode: D,
) -> (r: Result<(), ContextError>)
    ensures
        final(global).frozen == old(global).frozen,
        match old(global).build {
            Some(before) => (final(global).build matches Some(after) && (after@, outcome(r))
                == registered_with(before@, key@, ty, RegistrationOptions::fresh(), decode)),
            None => final(global).build is None && outcome(r) == Err::<(), ErrorView>(
                ErrorView::RegistryFrozen,
            ),
        },
{
    try_register_with(
        global,
        key,
        ty,
        decode,
        keep_options,
    )
}

/// Register a key for values that stay in the process, among the registrations
/// that are being collected.
pub fn try_register_local<E, D, M>(
    global: &mut GlobalRegistry<E, D, M>,
    key: &'static str,
    ty: TypeInfo,
) -> (r: Result<(), ContextError>)
    ensures
        final(global).frozen == old(global).frozen,
        match old(global).build {
            Some(before) => (final(global).build matches Some(after) && (after@, outcome(r))
                == registered_local(before@, key@, ty)),
            None => final(global).build is None && outcome(r) == Err::<(), ErrorView>(
                ErrorView::RegistryFrozen,
            ),
        },
{
    match global.build.take() {
        Some(map) => {
            let mut map = map;
            let r = map.do_register_local(key, ty);
            global.build = Some(map);
            r
        },
        None => Err(ContextError::RegistryFrozen),
    }
}

/// Register a decoder for an older version, among the registrations that are
/// being collected.
pub fn try_register_migration<E, D, M>(
    global: &mut GlobalRegistry<E, D, M>,
    key: &'static str,
    current: TypeInfo,
    old_version: u32,
    decoder: D,
) -> (r: Result<(), ContextError>)
    ensures
        final(global).frozen == old(global).frozen,
        match old(global).build {
            Some(before) => (final(global).build matches Some(after) && (after@, outcome(r))
                == registered_migration(before@, key@, current, old_version, decoder)),
            None => final(global).build is None && outcome(r) == Err::<(), ErrorView>(
                ErrorView::RegistryFrozen,
            ),
        },
{
    match global.build.take() {
        Some(map) => {
            let mut map = map;
            let r = map.do_register_migration(key, current, old_version, decoder);
            global.build = Some(map);
            r
        },
        None => Err(ContextError::RegistryFrozen),
    }
}

/// Registering a key twice with the same type is the same as registering it
/// once.
pub proof fn law_registration_is_idempotent<E, D, M>(
    before: Registrations<E, D, M>,
    key: Seq<char>,
    ty: TypeInfo,
    options: RegistrationOptions<E, D, M>,
    decode: D,
)
    requires
        registered_with(before, key, ty, options, decode).1 is Ok,
    ensures
        ({
            let once = registered_with(before, key, ty, options, decode).0;
            registered_with(once, key, ty, options, decode) == (once, Ok::<(), ErrorView>(()))
        }),
        ({
            let once = registered_local(before, key, ty).0;
            registered_local(before, key, ty).1 is Ok ==> registered_local(once, key, ty) == (
                once,
                Ok::<(), ErrorView>(()),
            )
        }),
{
}

/// A key that is registered with one type is refused with another, whatever the
/// options.
pub proof fn law_conflicting_type_is_refused<E, D, M>(
    before: Registrations<E, D, M>,
    key: Seq<char>,
    ty: TypeInfo,
    options: RegistrationOptions<E, D, M>,
    decode: D,
)
    requires
        before.contains_key(key),
        before[key].type_id != ty.id,
    ensures
        registered_with(before, key, ty, options, decode).1 is Err,
        registered_local(before, key, ty).1 is Err,
        !options.local_only ==> registered_with(before, key, ty, options, decode).1 == Err::<
            (),
            ErrorView,
        >(ErrorView::AlreadyRegistered(key)),
{
}

/// What is refused changes nothing.
pub proof fn law_refusal_changes_nothing<E, D, M>(
    before: Registrations<E, D, M>,
    key: Seq<char>,
    ty: TypeInfo,
    options: RegistrationOptions<E, D, M>,
    decode: D,
    version: u32,
)
    ensures
        registered_with(before, key, ty, options, decode).1 is Err ==> registered_with(
            before,
            key,
            ty,
            options,
            decode,
        ).0 == before,
        registered_local(before, key, ty).1 is Err ==> registered_local(before, key, ty).0
            == before,
        registered_migration(before, key, ty, version, decode).1 is Err ==> registered_migration(
            before,
            key,
            ty,
            version,
            decode,
        ).0 == before,
{
}

/// Whatever is registered, the registrations stay sound: keys that stay in the
/// process have no codec, and others can be read in the version that they are
/// written with.
pub proof fn law_registrations_stay_sound<E, D, M>(
    before: Registrations<E, D, M>,
    key: Seq<char>,
    ty: TypeInfo,
    options: RegistrationOptions<E, D, M>,
    decode: D,
    version: u32,
)
    requires
        registrations_wf(before),
    ensures
        registrations_wf(registered_with(before, key, ty, options, decode).0),
        registrations_wf(registered_local(before, key, ty).0),
        registrations_wf(registered_migration(before, key, ty, version, decode).0),
{
    let with = registered_with(before, key, ty, options, decode).0;
    let local = registered_local(before, key, ty).0;
    let migrated = registered_migration(before, key, ty, version, decode).0;
    assert forall|k: Seq<char>| #[trigger] with.contains_key(k) implies with[k].wf() by {
        if before.contains_key(k) {
            assert(before[k].wf());
        }
    }
    assert forall|k: Seq<char>| #[trigger] local.contains_key(k) implies local[k].wf() by {
        if before.contains_key(k) {
            assert(before[k].wf());
        }
    }
    assert forall|k: Seq<char>| #[trigger] migrated.contains_key(k) implies migrated[k].wf() by {
        assert(before.contains_key(k));
        assert(before[k].wf());
    }
}

/// A migration adds a decoder for its version. It never replaces the one for
/// the version that is written, nor touches any other version or key.
pub proof fn law_migration_keeps_native_decoder<E, D, M>(
    before: Registrations<E, D, M>,
    key: Seq<char>,
    current: TypeInfo,
    old_version: u32,
    decoder: D,
    other_key: Seq<char>,
    other_version: u32,
)
    requires
        before.contains_key(key),
    ensures
        ({
            let (after, result) = registered_migration(before, key, current, old_version, decoder);
            &&& crate::key_map::lookup(after[key].deserializers, before[key].key_version)
                == crate::key_map::lookup(before[key].deserializers, before[key].key_version)
            &&& after[key].key_version == before[key].key_version
            &&& other_version != old_version ==> crate::key_map::lookup(
                after[key].deserializers,
                other_version,
            ) == crate::key_map::lookup(before[key].deserializers, other_version)
            &&& other_key != key ==> crate::key_map::lookup(after, other_key)
                == crate::key_map::lookup(before, other_key)
            &&& result is Ok ==> crate::key_map::lookup(after[key].deserializers, old_version)
                == Some(decoder)
        }),
{
}

} // verus!
