//! What can go wrong in the directory.

use vstd::prelude::*;
use crate::storage::StorageError;

verus! {

/// The ways in which an operation of the directory fails.
#[derive(Debug, Clone, Copy, PartialEq, Eq)]
pub enum Error {
    /// No user is stored under the identifier.
    NotFound,
    /// The signature is malformed or does not match.
    Auth,
    /// A document could not be encoded.
    Serialization,
    /// The backend could not write.
    Storage,
}

impl From<StorageError> for Error {
    fn from(error: StorageError) -> (e: Error) {
        Error::Storage
    }
}

impl vstd::std_specs::convert::FromSpecImpl<StorageError> for Error {
    open spec fn obeys_from_spec() -> bool {
        true
    }

    open spec fn from_spec(error: StorageError) -> Error {
        Error::Storage
    }
}

} // verus!
