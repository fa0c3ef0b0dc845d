//! What can go wrong.

use vstd::prelude::*;
use vstd::string::*;

use crate::text::append_decimal;

verus! {

/// Errors returned by context operations.
#[derive(Debug)]
pub enum ContextError {
    /// The key is not registered.
    NotRegistered(String),
    /// The key is registered with another type.
    AlreadyRegistered(String),
    /// The key, the type it is registered with, and the type asked for.
    TypeMismatch(String, String, String),
    /// A value could not be turned into bytes.
    SerializationFailed(String),
    /// Bytes could not be turned into values.
    DeserializationFailed(String),
    /// The bytes of a context are more than the limit allows.
    ContextTooLarge { size: usize, limit: usize },
    /// The registry was frozen before.
    RegistryFrozen,
}

/// An error with its texts as characters.
pub enum ErrorView {
    NotRegistered(Seq<char>),
    AlreadyRegistered(Seq<char>),
    TypeMismatch(Seq<char>, Seq<char>, Seq<char>),
    SerializationFailed(Seq<char>),
    DeserializationFailed(Seq<char>),
    ContextTooLarge { size: usize, limit: usize },
    RegistryFrozen,
}

impl View for ContextError {
    type V = ErrorView;

    open spec fn view(&self) -> ErrorView {
        match *self {
            ContextError::NotRegistered(key) => ErrorView::NotRegistered(key@),
            ContextError::AlreadyRegistered(key) => ErrorView::AlreadyRegistered(key@),
            ContextError::TypeMismatch(key, expected, got) => ErrorView::TypeMismatch(
                key@,
                expected@,
                got@,
            ),
            ContextError::SerializationFailed(why) => ErrorView::SerializationFailed(why@),
            ContextError::DeserializationFailed(why) => ErrorView::DeserializationFailed(why@),
            ContextError::ContextTooLarge { size, limit } => ErrorView::ContextTooLarge {
                size,
                limit,
            },
            ContextError::RegistryFrozen => ErrorView::RegistryFrozen,
        }
    }
}

impl ErrorView {
    /// The message shown for an error.
    pub open spec fn text(self) -> Seq<char> {
        match self {
            ErrorView::NotRegistered(key) => "context key '"@ + key + "' is not registered"@,
            ErrorView::AlreadyRegistered(key) => "context key '"@ + key
                + "' is already registered with a different type"@,
            ErrorView::TypeMismatch(key, expected, got) => "type mismatch for key '"@ + key
                + "': expected "@ + expected + ", got "@ + got,
            ErrorView::SerializationFailed(why) => "serialization failed: "@ + why,
            ErrorView::DeserializationFailed(why) => "deserialization failed: "@ + why,
            ErrorView::ContextTooLarge { size, limit } => "context size exceeds limit: "@
                + crate::text::decimal(size as nat) + " bytes > "@ + crate::text::decimal(
                limit as nat,
            ) + " bytes"@,
            ErrorView::RegistryFrozen => "context registry is already frozen"@,
        }
    }
}

impl ContextError {
    /// The message shown for this error.
    pub fn message(&self) -> (r: String)
        ensures
            r@ == self@.text(),
    {
        let mut out: String = String::new();
        match self {
            ContextError::NotRegistered(key) => {
                out.append("context key '");
                out.append(key.as_str());
                out.append("' is not registered");
            },
            ContextError::AlreadyRegistered(key) => {
                out.append("context key '");
                out.append(key.as_str());
                out.append("' is already registered with a different type");
            },
            ContextError::TypeMismatch(key, expected, got) => {
                out.append("type mismatch for key '");
                out.append(key.as_str());
                out.append("': expected ");
                out.append(expected.as_str());
                out.append(", got ");
                out.append(got.as_str());
            },
            ContextError::SerializationFailed(why) => {
                out.append("serialization failed: ");
                out.append(why.as_str());
            },
            ContextError::DeserializationFailed(why) => {
                out.append("deserialization failed: ");
                out.append(why.as_str());
            },
            ContextError::ContextTooLarge { size, limit } => {
                out.append("context size exceeds limit: ");
                append_decimal(&mut out, *size);
                out.append(" bytes > ");
                append_decimal(&mut out, *limit);
                out.append(" bytes");
            },
            ContextError::RegistryFrozen => {
                out.append("context registry is already frozen");
            },
        }
        assert(out@ =~= self@.text());
        out
    }
}

} // verus!
