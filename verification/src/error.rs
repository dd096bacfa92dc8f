use vstd::prelude::*;
use vstd::std_specs::convert::FromSpecImpl;

verus! {

/// `serde_json`'s error type, carried opaquely in [`InsertionError::JsonErr`].
#[verifier::external_type_specification]
#[verifier::external_body]
pub struct ExJsonError(serde_json::Error);

/// `json5`'s error type, carried opaquely in [`InsertionError::Json5Err`].
#[verifier::external_type_specification]
#[verifier::external_body]
pub struct ExJson5Error(json5::Error);

/// Why inserting a value under a key of a validated structure failed.
#[derive(Debug)]
pub enum InsertionError {
    /// The structure offers no synchronous insertion.
    SyncInsertNotAvailable,
    /// The value could not be deserialized from JSON.
    JsonErr(serde_json::Error),
    /// The value could not be deserialized from JSON5.
    Json5Err(json5::Error),
    /// A static message, such as an unknown key or a rejected value.
    Str(&'static str),
    /// An owned message.
    String(String),
}

/// Why reading a value under a key of a validated structure failed. `E` is
/// what [`GetError::Other`] carries, a boxed `std::error::Error` where the
/// structures are generated.
#[derive(Debug)]
pub enum GetError<E> {
    /// No field answers to the key.
    NoMatchingKey,
    /// The field's value is not of the requested type.
    TypeMissMatch,
    /// Any other failure.
    Other(E),
}

impl InsertionError {
    /// The error of a structure that offers no synchronous insertion.
    pub fn sync_insert_not_available() -> (r: Self)
        ensures
            r is SyncInsertNotAvailable,
    {
        InsertionError::SyncInsertNotAvailable
    }
}

impl From<&'static str> for InsertionError {
    fn from(s: &'static str) -> (r: Self) {
        InsertionError::Str(s)
    }
}

impl FromSpecImpl<&'static str> for InsertionError {
    open spec fn obeys_from_spec() -> bool {
        true
    }

    open spec fn from_spec(s: &'static str) -> Self {
        InsertionError::Str(s)
    }
}

impl From<String> for InsertionError {
    fn from(s: String) -> (r: Self) {
        InsertionError::String(s)
    }
}

impl FromSpecImpl<String> for InsertionError {
    open spec fn obeys_from_spec() -> bool {
        true
    }

    open spec fn from_spec(s: String) -> Self {
        InsertionError::String(s)
    }
}

impl From<serde_json::Error> for InsertionError {
    fn from(e: serde_json::Error) -> (r: Self) {
        InsertionError::JsonErr(e)
    }
}

impl FromSpecImpl<serde_json::Error> for InsertionError {
    open spec fn obeys_from_spec() -> bool {
        true
    }

    open spec fn from_spec(e: serde_json::Error) -> Self {
        InsertionError::JsonErr(e)
    }
}

impl From<json5::Error> for InsertionError {
    fn from(e: json5::Error) -> (r: Self) {
        InsertionError::Json5Err(e)
    }
}

impl FromSpecImpl<json5::Error> for InsertionError {
    open spec fn obeys_from_spec() -> bool {
        true
    }

    open spec fn from_spec(e: json5::Error) -> Self {
        InsertionError::Json5Err(e)
    }
}

} // verus!
