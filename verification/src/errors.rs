//! Error taxonomy. Absent lookups are not errors: they return `None`. Each
//! variant tells a caller whether a retry is safe or the input must change.

use vstd::prelude::*;

verus! {

/// Malformed or missing credential input; fatal at construction, not retried.
#[derive(Clone, Copy, PartialEq, Eq, Structural, Debug)]
pub enum CredentialError {
    /// The input does not have the required length.
    InvalidLength,
    /// The input holds a character that is not an ASCII hex digit.
    InvalidHexDigit,
}

/// Local store failure; fatal for the affected call, the store stays usable.
#[derive(Clone, Copy, PartialEq, Eq, Structural, Debug)]
pub enum StoreError {
    /// A fresh store was requested where one already exists.
    AlreadyExists,
    /// Persisted records violate the store's invariants and are refused
    /// rather than silently reset.
    Corrupted,
    /// A mutation named a creation index that is not in the store.
    PaymentNotFound,
    /// The update-index space is exhausted; no further mutation can be
    /// given a strictly larger index.
    IndexSpaceExhausted,
}

/// Provisioning failure; surfaced to the caller, never retried implicitly.
#[derive(Clone, Copy, PartialEq, Eq, Structural, Debug)]
pub enum ProvisioningError {
    /// Signup was requested for an identity that is already registered.
    AlreadyRegistered,
}

} // verus!
