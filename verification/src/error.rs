//! The ways in which an operation can be refused.

use vstd::prelude::*;

verus! {

/// Bytes that are not the stored form of the value that was asked for: cut
/// short, carrying a tag that names no variant, or with a text or an
/// optional field that is not framed as the layout demands.
#[derive(Debug, Clone, Copy, PartialEq, Eq, Structural)]
pub struct DecodeError;

/// A record whose stored form is longer than the slot it was to be written to.
#[derive(Debug, Clone, Copy, PartialEq, Eq, Structural)]
pub struct CapacityError;

/// Why the authorization guard turned an action down.
#[derive(Debug, Clone, Copy, PartialEq, Eq, Structural)]
pub enum AuthError {
    /// The claimed identity did not sign the invocation.
    MissingSignature,
    /// The signer is not the identity that the action requires.
    NotAuthorized,
}

/// Why an invocation was refused. Every refusal ends the invocation and
/// leaves all slots as they were.
#[derive(Debug, Clone, Copy, PartialEq, Eq, Structural)]
pub enum ProcessingError {
    /// The request bytes do not decode to a known operation.
    InvalidRequest,
    /// A slot that should hold a record does not decode to one.
    MalformedRecord,
    /// The required identity did not sign.
    MissingSignature,
    /// The signer is not the authority that the stored record names.
    NotAuthorized,
    /// A record does not fit the slot it is to be written to.
    CapacityExceeded,
    /// Fewer slot handles were supplied than the operation needs.
    MissingSlot,
}

impl From<AuthError> for ProcessingError {
    /// A refusal of the guard, as the refusal of the invocation.
    fn from(e: AuthError) -> (out: ProcessingError) {
        match e {
            AuthError::MissingSignature => ProcessingError::MissingSignature,
            AuthError::NotAuthorized => ProcessingError::NotAuthorized,
        }
    }
}

impl vstd::std_specs::convert::FromSpecImpl<AuthError> for ProcessingError {
    open spec fn obeys_from_spec() -> bool {
        true
    }

    open spec fn from_spec(e: AuthError) -> ProcessingError {
        match e {
            AuthError::MissingSignature => ProcessingError::MissingSignature,
            AuthError::NotAuthorized => ProcessingError::NotAuthorized,
        }
    }
}

} // verus!
