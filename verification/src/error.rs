//! The failures that the library reports.

use vstd::prelude::*;

verus! {

/// A lookup found no entity under the identity asked for.
#[derive(Debug, Clone, Copy, PartialEq, Eq, Structural)]
pub struct NotFound;

/// The credentials could not be put together.
#[derive(Debug, PartialEq, Eq)]
pub enum ConfigError {
    /// The named setting is absent or empty.
    MissingCredential(String),
}

/// What the transport reports when it could not deliver an entity.
#[derive(Debug, PartialEq, Eq)]
pub enum FetchError {
    /// The service rejected the credentials.
    AuthenticationFailed,
    /// The request or the decoding of its answer failed.
    TransportError(String),
}

/// Why a get-or-create did not yield an entity.
#[derive(Debug, PartialEq, Eq)]
pub enum CacheError {
    /// The entity delivered cannot stand under the identity asked for.
    InsertionFailed,
    /// The service rejected the credentials.
    AuthenticationFailed,
    /// The request or the decoding of its answer failed.
    TransportError(String),
}

/// The failure of a get-or-create whose fetch failed with `e`: the same
/// failure, with the same detail.
pub open spec fn surfaced(e: FetchError) -> CacheError {
    match e {
        FetchError::AuthenticationFailed => CacheError::AuthenticationFailed,
        FetchError::TransportError(detail) => CacheError::TransportError(detail),
    }
}

impl CacheError {
    /// Hands a failure of the transport on as it is.
    pub fn from_fetch(e: FetchError) -> (r: CacheError)
        ensures
            r == surfaced(e),
    {
        match e {
            FetchError::AuthenticationFailed => CacheError::AuthenticationFailed,
            FetchError::TransportError(detail) => CacheError::TransportError(detail),
        }
    }
}

} // verus!
