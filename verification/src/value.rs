//! Values that a context can hold, and the types they are known by.

use std::any::TypeId;
use vstd::prelude::*;

use crate::error::ContextError;

verus! {

/// The identity of a type, `std::any::TypeId`.
#[verifier::external_type_specification]
#[verifier::external_body]
pub struct ExTypeId(std::any::TypeId);

/// Calls `==` of `std::any::TypeId`: two identities are equal when they are
/// identities of the same type.
#[verifier::external_body]
pub(crate) fn same_type(a: &TypeId, b: &TypeId) -> (r: bool)
    ensures
        r == (*a == *b),
{
    a == b
}

/// A type as the registry knows it: its identity, and its name for messages.
#[derive(Clone, Copy)]
pub struct TypeInfo {
    pub id: TypeId,
    pub name: &'static str,
}

/// A value that can travel in a context.
pub trait ContextValue {
    /// The bytes of this value in the default encoding.
    fn serialize_value(&self) -> Result<Vec<u8>, ContextError>;
}

/// A value together with the identity of its type.
pub struct TypedValue<V> {
    pub type_id: TypeId,
    pub value: V,
}

impl<V> TypedValue<V> {
    /// A value of the given type.
    pub fn new(type_id: TypeId, value: V) -> (r: Self)
        ensures
            r == (TypedValue { type_id, value }),
    {
        TypedValue { type_id, value }
    }

    /// Whether this value is of the given type.
    pub fn is_type(&self, type_id: &TypeId) -> (r: bool)
        ensures
            r == (self.type_id == *type_id),
    {
        same_type(&self.type_id, type_id)
    }
}

} // verus!
