//! Keys that carry their type with them.

use std::sync::Arc;
use vstd::prelude::*;

use crate::cell::ContextCell;
use crate::context;
use crate::error::{ContextError, ErrorView};
use crate::registry::{Registrations, Registry, RegistryBuilder};
use crate::value::{same_type, TypeInfo, TypedValue};

verus! {

/// A key together with the type of its values.
pub struct ContextKey {
    key: &'static str,
    ty: TypeInfo,
}

/// Why a registry refuses a key with a type, where it does.
pub open spec fn refusal<E, D, M>(
    registrations: Registrations<E, D, M>,
    key: Seq<char>,
    ty: TypeInfo,
) -> Option<ErrorView> {
    if !registrations.contains_key(key) {
        Some(ErrorView::NotRegistered(key))
    } else if registrations[key].type_id != ty.id {
        Some(ErrorView::TypeMismatch(key, registrations[key].value_type, ty.name@))
    } else {
        None
    }
}

impl ContextKey {
    /// The text of the key.
    pub closed spec fn text(&self) -> Seq<char> {
        self.key@
    }

    /// The type of its values.
    pub closed spec fn value_type(&self) -> TypeInfo {
        self.ty
    }

    /// A key with the type of its values.
    pub fn new(key: &'static str, ty: TypeInfo) -> (r: Self)
        ensures
            r.text() == key@,
            r.value_type() == ty,
    {
        ContextKey { key, ty }
    }

    /// Register this key. It must be free, or registered with the same type.
    pub fn register_on<E, D, M>(&self, builder: &mut RegistryBuilder<E, D, M>, decode: D)
        requires
            old(builder)@.contains_key(self.text()) ==> old(builder)@[self.text()].type_id
                == self.value_type().id,
        ensures
            final(builder)@ == crate::registry::registered_with(
                old(builder)@,
                self.text(),
                self.value_type(),
                crate::registry::RegistrationOptions::fresh(),
                decode,
            ).0,
    {
        builder.register(self.key, self.ty, decode);
    }

    /// Register this key, unless it is registered with another type.
    pub fn try_register_on<E, D, M>(&self, builder: &mut RegistryBuilder<E, D, M>, decode: D) -> (r:
        Result<(), ContextError>)
        ensures
            (final(builder)@, crate::registry::outcome(r)) == crate::registry::registered_with(
                old(builder)@,
                self.text(),
                self.value_type(),
                crate::registry::RegistrationOptions::fresh(),
                decode,
            ),
    {
        builder.try_register(self.key, self.ty, decode)
    }

    /// The value, where there is one of the key's type.
    pub fn get<V>(&self, cell: &ContextCell<V>) -> (r: Option<Arc<TypedValue<V>>>)
        ensures
            r == context::of_type(
                context::value_in(cell@, self.text()),
                self.value_type().id,
            ),
    {
        context::get_context_variable(cell, self.key, &self.ty.id)
    }

    fn check<E, D, M>(&self, registry: &Registry<'_, E, D, M>) -> (r: Result<(), ContextError>)
        ensures
            crate::registry::outcome(r) == (match refusal(
                registry@,
                self.text(),
                self.value_type(),
            ) {
                Some(error) => Err::<(), ErrorView>(error),
                None => Ok(()),
            }),
    {
        match registry.registration(self.key) {
            None => Err(ContextError::NotRegistered(self.key.to_owned())),
            Some(reg) => if same_type(&reg.type_id, &self.ty.id) {
                Ok(())
            } else {
                Err(
                    ContextError::TypeMismatch(
                        self.key.to_owned(),
                        reg.value_type.to_owned(),
                        self.ty.name.to_owned(),
                    ),
                )
            },
        }
    }

    /// The value, once it is clear that the key is registered with its type.
    pub fn try_get<V, E, D, M>(
        &self,
        cell: &ContextCell<V>,
        registry: &Registry<'_, E, D, M>,
    ) -> (r: Result<Option<Arc<TypedValue<V>>>, ContextError>)
        ensures
            crate::registry::outcome(r) == (match refusal(
                registry@,
                self.text(),
                self.value_type(),
            ) {
                Some(error) => Err::<Option<Arc<TypedValue<V>>>, ErrorView>(error),
                None => Ok(
                    context::of_type(
                        context::value_in(cell@, self.text()),
                        self.value_type().id,
                    ),
                ),
            }),
    {
        match self.check(registry) {
            Ok(()) => Ok(self.get(cell)),
            Err(error) => Err(error),
        }
    }

    /// Set the value in the active scope.
    pub fn set<V>(&self, cell: &mut ContextCell<V>, value: V)
        ensures
            exists|stored: Arc<TypedValue<V>>|
                *stored == (TypedValue { type_id: self.value_type().id, value }) && final(cell)@
                    == #[trigger] context::with_value(old(cell)@, self.text(), stored),
    {
        assert(self.text() == self.key@);
        context::set_context_variable(cell, self.key, self.ty.id, value)
    }

    /// Set the value in the active scope, once it is clear that the key is
    /// registered with its type.
    pub fn try_set<V, E, D, M>(
        &self,
        cell: &mut ContextCell<V>,
        registry: &Registry<'_, E, D, M>,
        value: V,
    ) -> (r: Result<(), ContextError>)
        ensures
            match refusal(registry@, self.text(), self.value_type()) {
                Some(error) => crate::registry::outcome(r) == Err::<(), ErrorView>(error)
                    && *final(cell) == *old(cell),
                None => r is Ok && exists|stored: Arc<TypedValue<V>>|
                    *stored == (TypedValue { type_id: self.value_type().id, value })
                        && final(cell)@ == #[trigger] context::with_value(
                        old(cell)@,
                        self.text(),
                        stored,
                    ),
            },
    {
        match self.check(registry) {
            Ok(()) => {
                self.set(cell, value);
                Ok(())
            },
            Err(error) => Err(error),
        }
    }

    /// The text of the key.
    pub fn key(&self) -> (r: &'static str)
        ensures
            r@ == self.text(),
    {
        self.key
    }
}

} // verus!
