//! Error taxonomy of the relay core.

use vstd::prelude::*;

verus! {

/// Classifies every failure the relay core can surface.
#[derive(Clone, Copy, Debug, PartialEq, Eq, Structural)]
pub enum Ip2pError {
    /// A Message Store read, write or delete failed, or a required entry
    /// was absent.
    StoreFailure,
    /// Anonymous-transport router or tunnel setup failed.
    TransportFailure,
    /// An outbound relay call failed or its proxy could not be constructed.
    RelayFailure,
    /// No proof-of-work solution was found inside the bounded search space.
    PowFailure,
    /// Stored or received bytes did not decode as the expected value.
    SerializationFailure,
    /// Timestamp, clock, or otherwise unclassified failure.
    Unknown,
}

/// JSON body shape of the front door's 404/500 responses.
#[derive(Clone, Debug)]
pub struct ErrorResponse {
    pub error: String,
}

impl Default for ErrorResponse {
    /// An empty error body.
    fn default() -> (r: Self)
        ensures
            r.error@ == Seq::<char>::empty(),
    {
        ErrorResponse { error: String::new() }
    }
}

impl ErrorResponse {
    /// The body the front door sends for a missing resource.
    pub fn not_found() -> (r: Self)
        ensures
            r.error@ == "Resource does not exist"@,
    {
        ErrorResponse { error: String::from_str("Resource does not exist") }
    }

    /// The body the front door sends for an internal failure.
    pub fn internal_error() -> (r: Self)
        ensures
            r.error@ == "Internal server error"@,
    {
        ErrorResponse { error: String::from_str("Internal server error") }
    }
}

} // verus!
