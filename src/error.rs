//! The errors that end a request turn.

use vstd::prelude::*;

verus! {

/// A request named an API key that this server does not serve.
#[derive(Clone, Copy, Debug, PartialEq, Eq, Structural)]
pub struct UnsupportedApiKeyError(pub i16);

/// Why a request turn failed; each of these closes the connection.
#[derive(Clone, Copy, Debug, PartialEq, Eq, Structural)]
pub enum ProcessError {
    /// The request bytes do not hold the request that their header announces.
    MalformedRequest,
    /// The header's API key is not one that this server serves.
    UnsupportedApiKey(UnsupportedApiKeyError),
    /// The cluster-metadata log could not be parsed.
    MalformedMetadata,
}

} // verus!
