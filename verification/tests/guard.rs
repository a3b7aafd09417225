use product_provenance::{authorize, require_signature, AuthError, ProcessingError, Pubkey};

fn key(fill: u8) -> Pubkey {
    Pubkey::new_from_array([fill; 32])
}

#[test]
fn signer_with_the_required_identity_is_authorized() {
    assert_eq!(authorize(true, &key(1), &key(1)), Ok(()));
}

#[test]
fn signer_with_another_identity_is_not_authorized() {
    assert_eq!(authorize(true, &key(1), &key(2)), Err(AuthError::NotAuthorized));
}

#[test]
fn missing_signature_is_reported_whatever_the_identity() {
    assert_eq!(authorize(false, &key(1), &key(1)), Err(AuthError::MissingSignature));
    assert_eq!(authorize(false, &key(1), &key(2)), Err(AuthError::MissingSignature));
}

#[test]
fn identities_that_differ_in_one_byte_are_not_the_same_authority() {
    let mut raw = [1u8; 32];
    raw[31] = 2;
    assert_eq!(
        authorize(true, &Pubkey::new_from_array(raw), &key(1)),
        Err(AuthError::NotAuthorized)
    );
}

#[test]
fn signature_alone() {
    assert_eq!(require_signature(true), Ok(()));
    assert_eq!(require_signature(false), Err(AuthError::MissingSignature));
}

#[test]
fn guard_refusals_become_invocation_refusals() {
    assert_eq!(
        ProcessingError::from(AuthError::MissingSignature),
        ProcessingError::MissingSignature
    );
    assert_eq!(ProcessingError::from(AuthError::NotAuthorized), ProcessingError::NotAuthorized);
}
