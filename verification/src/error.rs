//! Error taxonomy for loading and saving preferences.

use vstd::prelude::*;

verus! {

/// Errors that can happen while loading or saving preferences.
///
/// I/O and format failures are recoverable at the load boundary (the load
/// degrades to an empty document); an unregistered type identifier fails only
/// the one document entry that mentions it.
pub enum PreferencesError {
    /// The backend could not read or write its medium.
    Io,
    /// The backend has no document at all (first run). Distinguished from
    /// [`PreferencesError::Io`] so a missing file is not treated as a failure.
    NotFound,
    /// The stored bytes are not a valid document in the configured format.
    Deserialization,
    /// The document could not be encoded for storage.
    Serialization,
    /// A type identifier has no matching registration.
    UnregisteredType(Vec<u8>),
}

impl PreferencesError {
    /// True for the variant reporting an absent document.
    pub fn is_not_found(&self) -> (r: bool)
        ensures
            r == (self is NotFound),
    {
        match self {
            PreferencesError::NotFound => true,
            _ => false,
        }
    }
}

} // verus!
