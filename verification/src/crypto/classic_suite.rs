//! The classic suite: X25519, Ed25519, ChaCha20-Poly1305 and HKDF-SHA256.

use vstd::prelude::*;
use vstd::slice::{slice_subrange, slice_to_vec};
use vstd::string::StringSliceAdditionalSpecFns;
use crate::crypto::primitives::{
    chacha20poly1305_decrypt,
    chacha20poly1305_encrypt,
    chacha20poly1305_open,
    chacha20poly1305_seal,
    ed25519_derive_public,
    ed25519_public_key,
    ed25519_sign,
    ed25519_signature,
    ed25519_verifies,
    ed25519_verify,
    hkdf_sha256,
    hkdf_sha256_derive,
    os_random_bytes,
    x25519_derive_public,
    x25519_diffie_hellman,
    x25519_public_key,
    x25519_shared_secret,
    HKDF_MAX_LEN,
    KEY_LEN,
    NONCE_LEN,
    SIGNATURE_LEN,
    TAG_LEN,
};
use crate::crypto::provider::{aad_view, CryptoProvider};
use crate::error::CryptoError;
use crate::utils::secret::SecretBytes;
use crate::{SuiteID, CLASSIC_SUITE_ID};

verus! {

/// The suite with identifier 1. It has no state: every operation is an
/// associated function.
pub struct ClassicSuiteProvider;

/// The HKDF info that separates root-key expansion. It is part of the wire
/// contract of the suite.
pub open spec fn kdf_rk_info() -> Seq<u8> {
    "Double-Ratchet-Root-Key-Expansion".spec_bytes()
}

/// The HKDF info that separates chain-key expansion. It is part of the wire
/// contract of the suite.
pub open spec fn kdf_ck_info() -> Seq<u8> {
    "Double-Ratchet-Chain-Key-Expansion".spec_bytes()
}

/// The two 32-byte halves of 64 bytes of key material.
pub open spec fn split_key_material(okm: Seq<u8>) -> (Seq<u8>, Seq<u8>) {
    (okm.subrange(0, 32), okm.subrange(32, 64))
}

/// The associated data that is authenticated: none stands for empty.
pub open spec fn aad_or_empty(aad: Option<Seq<u8>>) -> Seq<u8> {
    match aad {
        Some(bytes) => bytes,
        None => Seq::empty(),
    }
}

/// Splits 64 bytes into their two halves.
fn split_halves(okm: Vec<u8>) -> (halves: (Vec<u8>, Vec<u8>))
    requires
        okm@.len() == 64,
    ensures
        (halves.0@, halves.1@) == split_key_material(okm@),
{
    let okm = SecretBytes::new(okm);
    let first = slice_to_vec(slice_subrange(okm.as_vec().as_slice(), 0, 32));
    let second = slice_to_vec(slice_subrange(okm.as_vec().as_slice(), 32, 64));
    (first, second)
}

impl CryptoProvider for ClassicSuiteProvider {
    open spec fn spec_suite_id() -> SuiteID {
        CLASSIC_SUITE_ID
    }

    open spec fn spec_kem_public(private_key: Seq<u8>) -> Result<Seq<u8>, CryptoError> {
        if private_key.len() == KEY_LEN {
            Ok(x25519_public_key(private_key))
        } else {
            Err(CryptoError::InvalidInput)
        }
    }

    open spec fn spec_kem_public_key_len() -> nat {
        KEY_LEN as nat
    }

    open spec fn spec_kem_decapsulate(private_key: Seq<u8>, ciphertext: Seq<u8>) -> Result<Seq<u8>, CryptoError> {
        if private_key.len() == KEY_LEN && ciphertext.len() == KEY_LEN {
            Ok(x25519_shared_secret(private_key, ciphertext))
        } else {
            Err(CryptoError::InvalidInput)
        }
    }

    open spec fn spec_signature_public(private_key: Seq<u8>) -> Result<Seq<u8>, CryptoError> {
        if private_key.len() == KEY_LEN {
            Ok(ed25519_public_key(private_key))
        } else {
            Err(CryptoError::InvalidInput)
        }
    }

    open spec fn spec_sign(private_key: Seq<u8>, message: Seq<u8>) -> Result<Seq<u8>, CryptoError> {
        if private_key.len() == KEY_LEN {
            Ok(ed25519_signature(private_key, message))
        } else {
            Err(CryptoError::InvalidInput)
        }
    }

    open spec fn spec_verify(public_key: Seq<u8>, message: Seq<u8>, signature: Seq<u8>) -> Result<(), CryptoError> {
        if public_key.len() != KEY_LEN || signature.len() != SIGNATURE_LEN {
            Err(CryptoError::InvalidInput)
        } else {
            match ed25519_verifies(public_key, message, signature) {
                None => Err(CryptoError::InvalidInput),
                Some(true) => Ok(()),
                Some(false) => Err(CryptoError::SignatureVerification),
            }
        }
    }

    open spec fn spec_aead_encrypt(key: Seq<u8>, nonce: Seq<u8>, plaintext: Seq<u8>, aad: Option<Seq<u8>>) -> Result<
        Seq<u8>,
        CryptoError,
    > {
        if key.len() != KEY_LEN || nonce.len() != NONCE_LEN {
            Err(CryptoError::InvalidInput)
        } else if plaintext.len() + TAG_LEN > isize::MAX {
            Err(CryptoError::AeadEncryption)
        } else {
            match chacha20poly1305_seal(key, nonce, plaintext, aad_or_empty(aad)) {
                Some(ciphertext) => Ok(ciphertext),
                None => Err(CryptoError::AeadEncryption),
            }
        }
    }

    open spec fn spec_aead_decrypt(key: Seq<u8>, nonce: Seq<u8>, ciphertext: Seq<u8>, aad: Option<Seq<u8>>) -> Result<
        Seq<u8>,
        CryptoError,
    > {
        if key.len() != KEY_LEN || nonce.len() != NONCE_LEN {
            Err(CryptoError::InvalidInput)
        } else {
            match chacha20poly1305_open(key, nonce, ciphertext, aad_or_empty(aad)) {
                Some(plaintext) => Ok(plaintext),
                None => Err(CryptoError::AeadDecryption),
            }
        }
    }

    open spec fn spec_hkdf_derive_key(salt: Seq<u8>, ikm: Seq<u8>, info: Seq<u8>, len: nat) -> Result<
        Seq<u8>,
        CryptoError,
    > {
        if len <= HKDF_MAX_LEN {
            Ok(hkdf_sha256(salt, ikm, info, len))
        } else {
            Err(CryptoError::KeyDerivation)
        }
    }

    open spec fn spec_kdf_rk(root_key: Seq<u8>, dh_output: Seq<u8>) -> Result<(Seq<u8>, Seq<u8>), CryptoError> {
        Ok(split_key_material(hkdf_sha256(root_key, dh_output, kdf_rk_info(), 64)))
    }

    open spec fn spec_kdf_ck(chain_key: Seq<u8>) -> Result<(Seq<u8>, Seq<u8>), CryptoError> {
        Ok(split_key_material(hkdf_sha256(chain_key, Seq::empty(), kdf_ck_info(), 64)))
    }

    fn generate_kem_keys() -> (r: Result<(Vec<u8>, Vec<u8>), CryptoError>)
        ensures
            r matches Ok(pair) ==> pair.0@.len() == KEY_LEN && pair.1@.len() == KEY_LEN,
    {
        match os_random_bytes(KEY_LEN) {
            None => Err(CryptoError::KeyDerivation),
            Some(private_key) => {
                let public_key = x25519_derive_public(private_key.as_slice());
                Ok((private_key, public_key))
            },
        }
    }

    fn from_private_key_to_public_key(private_key: &Vec<u8>) -> (r: Result<Vec<u8>, CryptoError>) {
        if private_key.len() != KEY_LEN {
            return Err(CryptoError::InvalidInput);
        }
        Ok(x25519_derive_public(private_key.as_slice()))
    }

    fn kem_public_key_from_bytes(bytes: Vec<u8>) -> (key: Vec<u8>) {
        bytes
    }

    fn kem_private_key_from_bytes(bytes: Vec<u8>) -> (key: Vec<u8>) {
        bytes
    }

    fn aead_key_from_bytes(bytes: Vec<u8>) -> (key: Vec<u8>) {
        bytes
    }

    fn signature_public_key_from_bytes(bytes: Vec<u8>) -> (key: Vec<u8>) {
        bytes
    }

    fn generate_signature_keys() -> (r: Result<(Vec<u8>, Vec<u8>), CryptoError>)
        ensures
            r matches Ok(pair) ==> pair.0@.len() == KEY_LEN && pair.1@.len() == KEY_LEN,
    {
        match os_random_bytes(KEY_LEN) {
            None => Err(CryptoError::KeyDerivation),
            Some(signing_key) => {
                let verifying_key = ed25519_derive_public(signing_key.as_slice());
                Ok((signing_key, verifying_key))
            },
        }
    }

    fn from_signing_key_to_verifying_key(private_key: &Vec<u8>) -> (r: Result<Vec<u8>, CryptoError>) {
        if private_key.len() != KEY_LEN {
            return Err(CryptoError::InvalidInput);
        }
        Ok(ed25519_derive_public(private_key.as_slice()))
    }

    fn sign(private_key: &Vec<u8>, message: &[u8]) -> (r: Result<Vec<u8>, CryptoError>)
        ensures
            r matches Ok(signature) ==> signature@.len() == SIGNATURE_LEN,
    {
        if private_key.len() != KEY_LEN {
            return Err(CryptoError::InvalidInput);
        }
        Ok(ed25519_sign(private_key.as_slice(), message))
    }

    fn verify(public_key: &Vec<u8>, message: &[u8], signature: &[u8]) -> (r: Result<(), CryptoError>) {
        if public_key.len() != KEY_LEN || signature.len() != SIGNATURE_LEN {
            return Err(CryptoError::InvalidInput);
        }
        match ed25519_verify(public_key.as_slice(), message, signature) {
            None => Err(CryptoError::InvalidInput),
            Some(true) => Ok(()),
            Some(false) => Err(CryptoError::SignatureVerification),
        }
    }

    fn kem_encapsulate(public_key: &Vec<u8>) -> (r: Result<(Vec<u8>, Vec<u8>), CryptoError>)
        ensures
            public_key@.len() != KEY_LEN ==> r == Err::<(Vec<u8>, Vec<u8>), CryptoError>(CryptoError::InvalidInput),
            r matches Err(e) ==> e == CryptoError::InvalidInput && public_key@.len() != KEY_LEN || e
                == CryptoError::KeyDerivation && public_key@.len() == KEY_LEN,
    {
        if public_key.len() != KEY_LEN {
            return Err(CryptoError::InvalidInput);
        }
        match os_random_bytes(KEY_LEN) {
            None => Err(CryptoError::KeyDerivation),
            Some(ephemeral) => {
                let ephemeral = SecretBytes::new(ephemeral);
                let ephemeral_public = x25519_derive_public(ephemeral.as_vec().as_slice());
                let shared = x25519_diffie_hellman(ephemeral.as_vec().as_slice(), public_key.as_slice());
                assert(Self::spec_kem_public(ephemeral@) == Ok::<Seq<u8>, CryptoError>(ephemeral_public@)
                    && Self::spec_kem_decapsulate(ephemeral@, public_key@) == Ok::<Seq<u8>, CryptoError>(
                    shared@,
                ));
                Ok((ephemeral_public, shared))
            },
        }
    }

    fn kem_decapsulate(private_key: &Vec<u8>, ciphertext: &[u8]) -> (r: Result<Vec<u8>, CryptoError>) {
        if private_key.len() != KEY_LEN || ciphertext.len() != KEY_LEN {
            return Err(CryptoError::InvalidInput);
        }
        Ok(x25519_diffie_hellman(private_key.as_slice(), ciphertext))
    }

    fn aead_encrypt(key: &Vec<u8>, nonce: &[u8], plaintext: &[u8], associated_data: Option<&[u8]>) -> (r: Result<
        Vec<u8>,
        CryptoError,
    >) {
        if key.len() != KEY_LEN || nonce.len() != NONCE_LEN {
            return Err(CryptoError::InvalidInput);
        }
        if plaintext.len() > (isize::MAX as usize) - TAG_LEN {
            return Err(CryptoError::AeadEncryption);
        }
        let empty: Vec<u8> = Vec::new();
        let aad: &[u8] = match associated_data {
            Some(bytes) => bytes,
            None => empty.as_slice(),
        };
        assert(aad@ == aad_or_empty(aad_view(associated_data)));
        match chacha20poly1305_encrypt(key.as_slice(), nonce, plaintext, aad) {
            Some(ciphertext) => Ok(ciphertext),
            None => Err(CryptoError::AeadEncryption),
        }
    }

    fn aead_decrypt(key: &Vec<u8>, nonce: &[u8], ciphertext: &[u8], associated_data: Option<&[u8]>) -> (r: Result<
        Vec<u8>,
        CryptoError,
    >) {
        if key.len() != KEY_LEN || nonce.len() != NONCE_LEN {
            return Err(CryptoError::InvalidInput);
        }
        let empty: Vec<u8> = Vec::new();
        let aad: &[u8] = match associated_data {
            Some(bytes) => bytes,
            None => empty.as_slice(),
        };
        assert(aad@ == aad_or_empty(aad_view(associated_data)));
        match chacha20poly1305_decrypt(key.as_slice(), nonce, ciphertext, aad) {
            Some(plaintext) => Ok(plaintext),
            None => Err(CryptoError::AeadDecryption),
        }
    }

    fn hkdf_derive_key(salt: &[u8], ikm: &[u8], info: &[u8], len: usize) -> (r: Result<Vec<u8>, CryptoError>) {
        if len > HKDF_MAX_LEN {
            return Err(CryptoError::KeyDerivation);
        }
        match hkdf_sha256_derive(salt, ikm, info, len) {
            Some(okm) => Ok(okm),
            None => Err(CryptoError::KeyDerivation),
        }
    }

    fn kdf_rk(root_key: &Vec<u8>, dh_output: &[u8]) -> (r: Result<(Vec<u8>, Vec<u8>), CryptoError>)
        ensures
            r is Ok,
    {
        let info = "Double-Ratchet-Root-Key-Expansion".as_bytes();
        match hkdf_sha256_derive(root_key.as_slice(), dh_output, info, 64) {
            Some(okm) => Ok(split_halves(okm)),
            None => Err(CryptoError::KeyDerivation),
        }
    }

    fn kdf_ck(chain_key: &Vec<u8>) -> (r: Result<(Vec<u8>, Vec<u8>), CryptoError>)
        ensures
            r is Ok,
    {
        let info = "Double-Ratchet-Chain-Key-Expansion".as_bytes();
        let empty: Vec<u8> = Vec::new();
        match hkdf_sha256_derive(chain_key.as_slice(), empty.as_slice(), info, 64) {
            Some(okm) => Ok(split_halves(okm)),
            None => Err(CryptoError::KeyDerivation),
        }
    }

    fn generate_nonce(len: usize) -> (r: Result<Vec<u8>, CryptoError>) {
        if len > isize::MAX as usize {
            return Err(CryptoError::InvalidInput);
        }
        match os_random_bytes(len) {
            Some(nonce) => Ok(nonce),
            None => Err(CryptoError::KeyDerivation),
        }
    }

    fn suite_id() -> (id: SuiteID) {
        CLASSIC_SUITE_ID
    }
}

} // verus!
