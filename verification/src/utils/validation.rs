//! Checks on the sizes of keys and signatures.

use vstd::prelude::*;
use crate::error::ConstructError;

verus! {

/// The length of a public key.
pub const PUBLIC_KEY_LEN: usize = 32;

/// The length of a signature.
pub const SIGNATURE_LEN: usize = 64;

/// Checks that a public key has 32 bytes. The failure is a
/// `ValidationError` that says so.
pub fn validate_public_key(key: &[u8]) -> (r: Result<(), ConstructError>)
    ensures
        r is Ok <==> key@.len() == PUBLIC_KEY_LEN,
        r matches Err(e) ==> e matches ConstructError::ValidationError(text) && text@
            == "Public key must be 32 bytes"@,
{
    if key.len() != PUBLIC_KEY_LEN {
        return Err(ConstructError::ValidationError("Public key must be 32 bytes".to_owned()));
    }
    Ok(())
}

/// Checks that a signature has 64 bytes. The failure is a
/// `ValidationError` that says so.
pub fn validate_signature(sig: &[u8]) -> (r: Result<(), ConstructError>)
    ensures
        r is Ok <==> sig@.len() == SIGNATURE_LEN,
        r matches Err(e) ==> e matches ConstructError::ValidationError(text) && text@
            == "Signature must be 64 bytes"@,
{
    if sig.len() != SIGNATURE_LEN {
        return Err(ConstructError::ValidationError("Signature must be 64 bytes".to_owned()));
    }
    Ok(())
}

} // verus!
