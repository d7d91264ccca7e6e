//! The capability set a cryptographic suite offers to the protocol layer.
//!
//! A suite is a type without state. Keys cross the interface as byte
//! vectors, and every operation that is a function of its arguments has a
//! specification function of the same name with the prefix `spec_`, so that
//! the handshake and the ratchet can be specified for any suite.

use vstd::prelude::*;
use crate::error::CryptoError;
use crate::utils::secret::SecretBytes;
use crate::SuiteID;

verus! {

/// The sequence held by `Ok`, the error otherwise.
pub open spec fn bytes_result_view(r: Result<Vec<u8>, CryptoError>) -> Result<Seq<u8>, CryptoError> {
    match r {
        Ok(bytes) => Ok(bytes@),
        Err(e) => Err(e),
    }
}

/// The two sequences held by `Ok`, the error otherwise.
pub open spec fn pair_result_view(r: Result<(Vec<u8>, Vec<u8>), CryptoError>) -> Result<
    (Seq<u8>, Seq<u8>),
    CryptoError,
> {
    match r {
        Ok(pair) => Ok((pair.0@, pair.1@)),
        Err(e) => Err(e),
    }
}

/// The associated data an optional slice stands for.
pub open spec fn aad_view(aad: Option<&[u8]>) -> Option<Seq<u8>> {
    match aad {
        Some(bytes) => Some(bytes@),
        None => None,
    }
}

/// A cryptographic suite: KEM, signature, AEAD and key derivation.
pub trait CryptoProvider: Sized {
    /// The identifier of the suite.
    spec fn spec_suite_id() -> SuiteID;

    /// The KEM public key of a private key, or why the private key is refused.
    spec fn spec_kem_public(private_key: Seq<u8>) -> Result<Seq<u8>, CryptoError>;

    /// The length of a KEM public key of the suite.
    spec fn spec_kem_public_key_len() -> nat;

    /// The shared secret a private key recovers from a KEM ciphertext.
    spec fn spec_kem_decapsulate(private_key: Seq<u8>, ciphertext: Seq<u8>) -> Result<Seq<u8>, CryptoError>;

    /// The verifying key of a signing key.
    spec fn spec_signature_public(private_key: Seq<u8>) -> Result<Seq<u8>, CryptoError>;

    /// The signature of a message.
    spec fn spec_sign(private_key: Seq<u8>, message: Seq<u8>) -> Result<Seq<u8>, CryptoError>;

    /// The outcome of verifying a signature.
    spec fn spec_verify(public_key: Seq<u8>, message: Seq<u8>, signature: Seq<u8>) -> Result<(), CryptoError>;

    /// The ciphertext, tag included.
    spec fn spec_aead_encrypt(key: Seq<u8>, nonce: Seq<u8>, plaintext: Seq<u8>, aad: Option<Seq<u8>>) -> Result<
        Seq<u8>,
        CryptoError,
    >;

    /// The plaintext of an authentic ciphertext.
    spec fn spec_aead_decrypt(key: Seq<u8>, nonce: Seq<u8>, ciphertext: Seq<u8>, aad: Option<Seq<u8>>) -> Result<
        Seq<u8>,
        CryptoError,
    >;

    /// `len` bytes of key material.
    spec fn spec_hkdf_derive_key(salt: Seq<u8>, ikm: Seq<u8>, info: Seq<u8>, len: nat) -> Result<Seq<u8>, CryptoError>;

    /// The next root key and a fresh chain key.
    spec fn spec_kdf_rk(root_key: Seq<u8>, dh_output: Seq<u8>) -> Result<(Seq<u8>, Seq<u8>), CryptoError>;

    /// A message key and the next chain key.
    spec fn spec_kdf_ck(chain_key: Seq<u8>) -> Result<(Seq<u8>, Seq<u8>), CryptoError>;

    /// A fresh KEM key pair, private key first. Fails with `KeyDerivation`
    /// only, where no randomness could be had.
    fn generate_kem_keys() -> (r: Result<(Vec<u8>, Vec<u8>), CryptoError>)
        ensures
            r matches Ok(pair) ==> Self::spec_kem_public(pair.0@) == Ok::<Seq<u8>, CryptoError>(pair.1@),
            r matches Ok(pair) ==> pair.1@.len() == Self::spec_kem_public_key_len(),
            r matches Err(e) ==> e == CryptoError::KeyDerivation,
    ;

    /// The public key of a KEM private key, of the length the suite
    /// gives its public keys.
    fn from_private_key_to_public_key(private_key: &Vec<u8>) -> (r: Result<Vec<u8>, CryptoError>)
        ensures
            bytes_result_view(r) == Self::spec_kem_public(private_key@),
            r matches Ok(public_key) ==> public_key@.len() == Self::spec_kem_public_key_len(),
    ;

    /// A KEM public key from its bytes.
    fn kem_public_key_from_bytes(bytes: Vec<u8>) -> (key: Vec<u8>)
        ensures
            key@ == bytes@,
    ;

    /// A KEM private key from its bytes.
    fn kem_private_key_from_bytes(bytes: Vec<u8>) -> (key: Vec<u8>)
        ensures
            key@ == bytes@,
    ;

    /// An AEAD key from its bytes.
    fn aead_key_from_bytes(bytes: Vec<u8>) -> (key: Vec<u8>)
        ensures
            key@ == bytes@,
    ;

    /// A verifying key from its bytes.
    fn signature_public_key_from_bytes(bytes: Vec<u8>) -> (key: Vec<u8>)
        ensures
            key@ == bytes@,
    ;

    /// A fresh signature key pair, signing key first. Fails with
    /// `KeyDerivation` only, where no randomness could be had.
    fn generate_signature_keys() -> (r: Result<(Vec<u8>, Vec<u8>), CryptoError>)
        ensures
            r matches Ok(pair) ==> Self::spec_signature_public(pair.0@) == Ok::<Seq<u8>, CryptoError>(pair.1@),
            r matches Err(e) ==> e == CryptoError::KeyDerivation,
    ;

    /// The verifying key of a signing key.
    fn from_signing_key_to_verifying_key(private_key: &Vec<u8>) -> (r: Result<Vec<u8>, CryptoError>)
        ensures
            bytes_result_view(r) == Self::spec_signature_public(private_key@),
    ;

    /// Signs a message. The signature verifies for the message under the
    /// verifying key of the signing key.
    fn sign(private_key: &Vec<u8>, message: &[u8]) -> (r: Result<Vec<u8>, CryptoError>)
        ensures
            bytes_result_view(r) == Self::spec_sign(private_key@, message@),
            r is Ok && Self::spec_signature_public(private_key@) is Ok ==> Self::spec_verify(
                Self::spec_signature_public(private_key@)->Ok_0,
                message@,
                r->Ok_0@,
            ) == Ok::<(), CryptoError>(()),
    ;

    /// Verifies a signature over a message.
    fn verify(public_key: &Vec<u8>, message: &[u8], signature: &[u8]) -> (r: Result<(), CryptoError>)
        ensures
            r == Self::spec_verify(public_key@, message@, signature@),
    ;

    /// Encapsulates to a public key: the ciphertext to send and the shared
    /// secret, which the holder of the private key recovers by
    /// decapsulating that ciphertext.
    fn kem_encapsulate(public_key: &Vec<u8>) -> (r: Result<(Vec<u8>, Vec<u8>), CryptoError>)
        ensures
            r matches Ok(pair) ==> exists|ephemeral: Seq<u8>|
                Self::spec_kem_public(ephemeral) == Ok::<Seq<u8>, CryptoError>(pair.0@)
                    && #[trigger] Self::spec_kem_decapsulate(ephemeral, public_key@) == Ok::<Seq<u8>, CryptoError>(
                    pair.1@,
                ),
    ;

    /// Recovers the shared secret from a KEM ciphertext.
    fn kem_decapsulate(private_key: &Vec<u8>, ciphertext: &[u8]) -> (r: Result<Vec<u8>, CryptoError>)
        ensures
            bytes_result_view(r) == Self::spec_kem_decapsulate(private_key@, ciphertext@),
    ;

    /// Encrypts and authenticates. What comes out decrypts to the plaintext
    /// under the same key, nonce and associated data.
    fn aead_encrypt(key: &Vec<u8>, nonce: &[u8], plaintext: &[u8], associated_data: Option<&[u8]>) -> (r: Result<
        Vec<u8>,
        CryptoError,
    >)
        ensures
            bytes_result_view(r) == Self::spec_aead_encrypt(key@, nonce@, plaintext@, aad_view(associated_data)),
            r matches Ok(c) ==> Self::spec_aead_decrypt(key@, nonce@, c@, aad_view(associated_data)) == Ok::<
                Seq<u8>,
                CryptoError,
            >(plaintext@),
    ;

    /// Checks the tag and decrypts.
    fn aead_decrypt(key: &Vec<u8>, nonce: &[u8], ciphertext: &[u8], associated_data: Option<&[u8]>) -> (r: Result<
        Vec<u8>,
        CryptoError,
    >)
        ensures
            bytes_result_view(r) == Self::spec_aead_decrypt(key@, nonce@, ciphertext@, aad_view(associated_data)),
    ;

    /// Derives `len` bytes of key material.
    fn hkdf_derive_key(salt: &[u8], ikm: &[u8], info: &[u8], len: usize) -> (r: Result<Vec<u8>, CryptoError>)
        ensures
            bytes_result_view(r) == Self::spec_hkdf_derive_key(salt@, ikm@, info@, len as nat),
            r matches Ok(k) ==> k@.len() == len,
    ;

    /// Advances the root chain: the next root key and a chain key.
    fn kdf_rk(root_key: &Vec<u8>, dh_output: &[u8]) -> (r: Result<(Vec<u8>, Vec<u8>), CryptoError>)
        ensures
            pair_result_view(r) == Self::spec_kdf_rk(root_key@, dh_output@),
    ;

    /// Advances a message chain: a message key and the next chain key.
    fn kdf_ck(chain_key: &Vec<u8>) -> (r: Result<(Vec<u8>, Vec<u8>), CryptoError>)
        ensures
            pair_result_view(r) == Self::spec_kdf_ck(chain_key@),
    ;

    /// `len` random bytes. Fails with `InvalidInput` where no buffer of
    /// that size can exist, and else with `KeyDerivation` only, where no
    /// randomness could be had.
    fn generate_nonce(len: usize) -> (r: Result<Vec<u8>, CryptoError>)
        ensures
            r matches Ok(n) ==> n@.len() == len,
            r matches Err(e) ==> (e == CryptoError::InvalidInput <==> len > isize::MAX) && (e
                == CryptoError::KeyDerivation <==> len <= isize::MAX),
    ;

    /// The identifier of the suite.
    fn suite_id() -> (id: SuiteID)
        ensures
            id == Self::spec_suite_id(),
    ;
}

/// The two secrets held by `Ok`, the error otherwise.
pub open spec fn secret_pair_result_view(r: Result<(SecretBytes, SecretBytes), CryptoError>) -> Result<
    (Seq<u8>, Seq<u8>),
    CryptoError,
> {
    match r {
        Ok(pair) => Ok((pair.0@, pair.1@)),
        Err(e) => Err(e),
    }
}

/// The secret held by `Ok`, the error otherwise.
pub open spec fn secret_result_view(r: Result<SecretBytes, CryptoError>) -> Result<Seq<u8>, CryptoError> {
    match r {
        Ok(secret) => Ok(secret@),
        Err(e) => Err(e),
    }
}

/// `kdf_rk` of the suite, with its keys kept as secrets.
pub fn secret_kdf_rk<P: CryptoProvider>(root_key: &SecretBytes, dh_output: &SecretBytes) -> (r: Result<
    (SecretBytes, SecretBytes),
    CryptoError,
>)
    ensures
        secret_pair_result_view(r) == P::spec_kdf_rk(root_key@, dh_output@),
{
    let (next_root_key, chain_key) = P::kdf_rk(root_key.as_vec(), dh_output.as_vec().as_slice())?;
    Ok((SecretBytes::new(next_root_key), SecretBytes::new(chain_key)))
}

/// `kdf_ck` of the suite, with its keys kept as secrets.
pub fn secret_kdf_ck<P: CryptoProvider>(chain_key: &SecretBytes) -> (r: Result<(SecretBytes, SecretBytes), CryptoError>)
    ensures
        secret_pair_result_view(r) == P::spec_kdf_ck(chain_key@),
{
    let (message_key, next_chain_key) = P::kdf_ck(chain_key.as_vec())?;
    Ok((SecretBytes::new(message_key), SecretBytes::new(next_chain_key)))
}

/// `kem_decapsulate` of the suite, with the shared secret kept as a
/// secret.
pub fn secret_kem_decapsulate<P: CryptoProvider>(private_key: &Vec<u8>, ciphertext: &[u8]) -> (r: Result<
    SecretBytes,
    CryptoError,
>)
    ensures
        secret_result_view(r) == P::spec_kem_decapsulate(private_key@, ciphertext@),
{
    Ok(SecretBytes::new(P::kem_decapsulate(private_key, ciphertext)?))
}

/// `hkdf_derive_key` of the suite, with the key kept as a secret.
pub fn secret_hkdf_derive_key<P: CryptoProvider>(salt: &[u8], ikm: &[u8], info: &[u8], len: usize) -> (r: Result<
    SecretBytes,
    CryptoError,
>)
    ensures
        secret_result_view(r) == P::spec_hkdf_derive_key(salt@, ikm@, info@, len as nat),
        r matches Ok(k) ==> k@.len() == len,
{
    Ok(SecretBytes::new(P::hkdf_derive_key(salt, ikm, info, len)?))
}

} // verus!
