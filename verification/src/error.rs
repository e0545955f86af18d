use vstd::prelude::*;

verus! {

#[verifier::external_type_specification]
#[verifier::external_body]
pub struct ExJsonError(serde_json::Error);

/// Crate-wide error type. Every subsystem's public interface returns this so
/// the supervisor and future action router can reason about failures
/// uniformly.
#[derive(Debug)]
pub enum BellaError {
    /// A capability (named by its display text) was not granted.
    PermissionDenied(String),
    /// The named subsystem is not registered on the message bus.
    SubsystemNotFound(String),
    /// The named subsystem's inbox has been closed.
    ChannelClosed(String),
    /// The named subsystem's inbox is full (backpressure).
    ChannelFull(String),
    /// A value could not be (de)serialized.
    Serialization(serde_json::Error),
    /// A subsystem-internal failure, described in words.
    Internal(String),
}

/// Result type of every fallible operation of the library.
pub type BellaResult<T> = Result<T, BellaError>;

impl From<serde_json::Error> for BellaError {
    fn from(e: serde_json::Error) -> (r: BellaError) {
        BellaError::Serialization(e)
    }
}

impl vstd::std_specs::convert::FromSpecImpl<serde_json::Error> for BellaError {
    open spec fn obeys_from_spec() -> bool {
        true
    }

    open spec fn from_spec(e: serde_json::Error) -> BellaError {
        BellaError::Serialization(e)
    }
}

} // verus!
