//! The error taxonomy shared by every engine, persistence and service
//! operation.

use vstd::prelude::*;

verus! {

/// What can go wrong across the classifier's operations.
///
/// * `InvalidInput`: a caller handed a malformed pixel vector or an
///   out-of-range label.
/// * `SerializationError`: a model state's tensor lengths do not match the
///   network's fixed shapes.
/// * `PersistenceError`: durable storage could not be read, written or
///   decoded.
/// * `InternalError`: a dispatched background computation terminated
///   abnormally.
#[derive(Clone, Copy, Debug, PartialEq, Eq, Structural)]
pub enum NNError {
    InvalidInput,
    SerializationError,
    PersistenceError,
    InternalError,
}

impl NNError {
    /// A human-readable description of the error kind.
    pub fn message(&self) -> (r: String)
        ensures
            *self is InvalidInput ==> r@ == "Invalid input data"@,
            *self is SerializationError ==> r@ == "Serialization error"@,
            *self is PersistenceError ==> r@ == "Persistence error"@,
            *self is InternalError ==> r@ == "Internal error"@,
    {
        match self {
            NNError::InvalidInput => String::from_str("Invalid input data"),
            NNError::SerializationError => String::from_str("Serialization error"),
            NNError::PersistenceError => String::from_str("Persistence error"),
            NNError::InternalError => String::from_str("Internal error"),
        }
    }
}

} // verus!
