use vstd::prelude::*;

verus! {

/// Why a value was refused before it reached the store.
#[derive(Debug, Clone, Copy, PartialEq, Eq, Structural)]
pub enum ValidationError {
    /// The value holds characters (or a shape) that are not allowed.
    InvalidValue,
    /// The value is longer than allowed.
    ValueTooLong,
    /// A property was to be set to JSON `null`.
    NullValue,
}

/// The errors of the database's operations.
#[derive(Debug, Clone, Copy, PartialEq, Eq, Structural)]
pub enum Error {
    /// An input was refused (see `ValidationError`).
    Validation(ValidationError),
    /// The query has a shape that the operation cannot consume.
    Unsupported,
    /// A property predicate named a property that is not indexed.
    NotIndexed,
    /// A freshly drawn vertex id was already taken.
    UuidTaken,
}

/// The description of each kind of error.
pub open spec fn message_of(e: Error) -> Seq<char> {
    match e {
        Error::Validation(ValidationError::InvalidValue) => "invalid value"@,
        Error::Validation(ValidationError::ValueTooLong) => "value too long"@,
        Error::Validation(ValidationError::NullValue) => "null property value"@,
        Error::Unsupported => "query not supported"@,
        Error::NotIndexed => "property not indexed"@,
        Error::UuidTaken => "UUID already taken"@,
    }
}

impl Error {
    /// A human-readable description of the error.
    pub fn message(&self) -> (r: &'static str)
        ensures
            r@ == message_of(*self),
    {
        match self {
            Error::Validation(ValidationError::InvalidValue) => "invalid value",
            Error::Validation(ValidationError::ValueTooLong) => "value too long",
            Error::Validation(ValidationError::NullValue) => "null property value",
            Error::Unsupported => "query not supported",
            Error::NotIndexed => "property not indexed",
            Error::UuidTaken => "UUID already taken",
        }
    }
}

} // verus!
