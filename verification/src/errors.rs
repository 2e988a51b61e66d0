//! Structured host errors: a `(type, code)` pair.

use vstd::prelude::*;

verus! {

/// The subsystem an error originates from.
#[derive(Clone, Copy, Debug, PartialEq, Eq, Structural)]
pub enum ScErrorType {
    Context,
    Budget,
    Storage,
    Object,
    Auth,
    Value,
}

/// The kind of failure within a subsystem.
#[derive(Clone, Copy, Debug, PartialEq, Eq, Structural)]
pub enum ScErrorCode {
    ExceededLimit,
    InternalError,
    InvalidInput,
    ArithDomain,
    MissingValue,
}

/// A structured host error. Errors propagate eagerly and unchanged out of the
/// current host call; the storage facade decorates them with the failing
/// contract or code identifier before returning.
#[derive(Clone, Copy, Debug, PartialEq, Eq, Structural)]
pub struct Error {
    pub error_type: ScErrorType,
    pub code: ScErrorCode,
}

impl Error {
    pub fn from_type_and_code(error_type: ScErrorType, code: ScErrorCode) -> (r: Error)
        ensures
            r == (Error { error_type, code }),
    {
        Error { error_type, code }
    }
}

/// Every fallible host operation reports this error type.
pub type HostError = Error;

} // verus!
