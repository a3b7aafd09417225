//! The authorization guard: who may act on a record.

use vstd::prelude::*;
use crate::error::AuthError;
use crate::identity::Pubkey;

verus! {

/// What the guard decides. An action is allowed only to a confirmed signer
/// whose identity is the required one; a missing signature is reported
/// before a wrong identity.
pub open spec fn authorization(
    is_claimed_signer: bool,
    claimed_identity: Pubkey,
    required_identity: Pubkey,
) -> Result<(), AuthError> {
    if !is_claimed_signer {
        Err(AuthError::MissingSignature)
    } else if claimed_identity != required_identity {
        Err(AuthError::NotAuthorized)
    } else {
        Ok(())
    }
}

/// The first half of the guard: refuses with `MissingSignature` unless the
/// claimed identity signed the invocation.
pub fn require_signature(is_claimed_signer: bool) -> (out: Result<(), AuthError>)
    ensures
        out == (if is_claimed_signer {
            Ok::<(), AuthError>(())
        } else {
            Err::<(), AuthError>(AuthError::MissingSignature)
        }),
{
    if is_claimed_signer {
        Ok(())
    } else {
        Err(AuthError::MissingSignature)
    }
}

/// Decides whether the party `claimed_identity`, which signed the invocation
/// if `is_claimed_signer` says so, may take an action reserved for
/// `required_identity`.
pub fn authorize(
    is_claimed_signer: bool,
    claimed_identity: &Pubkey,
    required_identity: &Pubkey,
) -> (out: Result<(), AuthError>)
    ensures
        out == authorization(is_claimed_signer, *claimed_identity, *required_identity),
        out is Ok <==> is_claimed_signer && *claimed_identity == *required_identity,
{
    match require_signature(is_claimed_signer) {
        Err(e) => Err(e),
        Ok(()) => {
            if *claimed_identity != *required_identity {
                Err(AuthError::NotAuthorized)
            } else {
                Ok(())
            }
        },
    }
}

} // verus!
