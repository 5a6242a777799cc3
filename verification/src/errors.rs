//! The error taxonomy of the service and how each error surfaces to a
//! client.

use vstd::prelude::*;

verus! {

/// Everything that can go wrong on a request path or at startup.
///
/// `NotFound` is the only user-attributable outcome; the rest surface as a
/// generic server error so that internal detail never leaks to a client.
#[derive(Clone, Copy, Debug, PartialEq, Eq, Structural)]
pub enum ServiceError {
    /// The token is absent from the cache and from durable storage.
    NotFound,
    /// A freshly generated token collided with one already cached.
    Conflict,
    /// A durable-storage operation failed or timed out.
    StorageFailure,
    /// Startup configuration was missing or malformed.
    ConfigurationError,
}

impl ServiceError {
    /// The HTTP status code under which this error is reported.
    pub open spec fn spec_status(self) -> u16 {
        match self {
            ServiceError::NotFound => 404,
            ServiceError::Conflict => 500,
            ServiceError::StorageFailure => 500,
            ServiceError::ConfigurationError => 500,
        }
    }

    /// Maps the error to its HTTP status code: 404 for an unknown token,
    /// 500 for everything the client cannot help.
    pub fn status(&self) -> (code: u16)
        ensures
            code == self.spec_status(),
    {
        match self {
            ServiceError::NotFound => 404,
            ServiceError::Conflict => 500,
            ServiceError::StorageFailure => 500,
            ServiceError::ConfigurationError => 500,
        }
    }
}

/// Collapses the detail of a startup failure: whatever error a
/// configuration source produced, the process reports one opaque
/// configuration error and refuses to start.
pub fn erase_err<T>(_err: T) -> (r: ServiceError)
    ensures
        r == ServiceError::ConfigurationError,
{
    ServiceError::ConfigurationError
}

} // verus!
