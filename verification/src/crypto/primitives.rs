//! The primitives of the classic suite as the outside crates compute them.
//!
//! Nothing in this file is proved. Each function below hands plain bytes to
//! one outside primitive and hands plain bytes back; what it promises is
//! taken from that primitive's documentation and source. Where a result is a
//! function of the arguments alone it is given a name, and the rest of the
//! library reasons about that name only.

use vstd::prelude::*;

verus! {

/// The X25519 public key that belongs to a 32-byte secret.
pub uninterp spec fn x25519_public_key(secret: Seq<u8>) -> Seq<u8>;

/// The X25519 shared secret of a 32-byte secret and a 32-byte public key.
pub uninterp spec fn x25519_shared_secret(secret: Seq<u8>, public: Seq<u8>) -> Seq<u8>;

/// The Ed25519 verifying key that belongs to a 32-byte signing key.
pub uninterp spec fn ed25519_public_key(secret: Seq<u8>) -> Seq<u8>;

/// The Ed25519 signature of a message under a 32-byte signing key.
pub uninterp spec fn ed25519_signature(secret: Seq<u8>, message: Seq<u8>) -> Seq<u8>;

/// Whether a 64-byte signature verifies for a message under a 32-byte
/// verifying key; `None` where the key bytes are not a point of the curve.
pub uninterp spec fn ed25519_verifies(public: Seq<u8>, message: Seq<u8>, signature: Seq<u8>) -> Option<bool>;

/// The ChaCha20-Poly1305 ciphertext with its tag appended; `None` where the
/// cipher refuses the plaintext.
pub uninterp spec fn chacha20poly1305_seal(
    key: Seq<u8>,
    nonce: Seq<u8>,
    plaintext: Seq<u8>,
    aad: Seq<u8>,
) -> Option<Seq<u8>>;

/// The plaintext of a ChaCha20-Poly1305 ciphertext; `None` where the tag does
/// not authenticate it.
pub uninterp spec fn chacha20poly1305_open(
    key: Seq<u8>,
    nonce: Seq<u8>,
    ciphertext: Seq<u8>,
    aad: Seq<u8>,
) -> Option<Seq<u8>>;

/// HKDF-SHA256 (extract, then expand) to `len` bytes of output.
pub uninterp spec fn hkdf_sha256(salt: Seq<u8>, ikm: Seq<u8>, info: Seq<u8>, len: nat) -> Seq<u8>;

/// The hyphenated lower-case text of the version 4 UUID made from 16 random
/// bytes.
pub uninterp spec fn uuid_v4_text(random: Seq<u8>) -> Seq<char>;

/// Whether a signature verifies for a message under the verifying key
/// that belongs to a signing key, a key of 32 bytes.
pub open spec fn verifies_under_own_key(secret: Seq<u8>, message: Seq<u8>, signature: Seq<u8>) -> bool {
    &&& ed25519_public_key(secret).len() == 32
    &&& ed25519_verifies(ed25519_public_key(secret), message, signature) == Some(true)
}

/// Length of an X25519 or Ed25519 key.
pub const KEY_LEN: usize = 32;

/// Length of an Ed25519 signature.
pub const SIGNATURE_LEN: usize = 64;

/// Length of a ChaCha20-Poly1305 nonce.
pub const NONCE_LEN: usize = 12;

/// Length of the Poly1305 tag appended to a ciphertext.
pub const TAG_LEN: usize = 16;

/// The longest output HKDF-SHA256 can expand to: 255 blocks of 32 bytes.
pub const HKDF_MAX_LEN: usize = 8160;

/// `rand::rngs::OsRng::try_fill_bytes` on a fresh buffer of `len` bytes.
/// Returns the filled buffer, or `None` where the operating system gave no
/// randomness. Nothing is claimed of the bytes but their number.
#[verifier::external_body]
pub(crate) fn os_random_bytes(len: usize) -> (bytes: Option<Vec<u8>>)
    requires
        len <= isize::MAX,
    ensures
        bytes matches Some(b) ==> b@.len() == len,
{
    let mut buffer = vec![0u8; len];
    match rand_core::RngCore::try_fill_bytes(&mut rand::rngs::OsRng, &mut buffer) {
        Ok(()) => Some(buffer),
        Err(_) => None,
    }
}

/// `x25519_dalek::PublicKey::from(&StaticSecret)`: the public key of a
/// secret, 32 bytes, a function of the secret alone.
#[verifier::external_body]
pub(crate) fn x25519_derive_public(secret: &[u8]) -> (public: Vec<u8>)
    requires
        secret@.len() == 32,
    ensures
        public@ == x25519_public_key(secret@),
        public@.len() == 32,
{
    let bytes: [u8; 32] = secret.try_into().unwrap();
    let secret_key = x25519_dalek::StaticSecret::from(bytes);
    x25519_dalek::PublicKey::from(&secret_key).to_bytes().to_vec()
}

/// `x25519_dalek::StaticSecret::diffie_hellman`: the shared secret of a
/// secret and a peer's public key, 32 bytes, a function of the two alone.
#[verifier::external_body]
pub(crate) fn x25519_diffie_hellman(secret: &[u8], public: &[u8]) -> (shared: Vec<u8>)
    requires
        secret@.len() == 32,
        public@.len() == 32,
    ensures
        shared@ == x25519_shared_secret(secret@, public@),
        shared@.len() == 32,
{
    let secret_bytes: [u8; 32] = secret.try_into().unwrap();
    let public_bytes: [u8; 32] = public.try_into().unwrap();
    let secret_key = x25519_dalek::StaticSecret::from(secret_bytes);
    let public_key = x25519_dalek::PublicKey::from(public_bytes);
    secret_key.diffie_hellman(&public_key).to_bytes().to_vec()
}

/// `ed25519_dalek::SigningKey::verifying_key`: the verifying key of a signing
/// key, 32 bytes, a function of the signing key alone.
#[verifier::external_body]
pub(crate) fn ed25519_derive_public(secret: &[u8]) -> (public: Vec<u8>)
    requires
        secret@.len() == 32,
    ensures
        public@ == ed25519_public_key(secret@),
        public@.len() == 32,
{
    let bytes: [u8; 32] = secret.try_into().unwrap();
    ed25519_dalek::SigningKey::from_bytes(&bytes).verifying_key().to_bytes().to_vec()
}

/// `ed25519_dalek::SigningKey::sign` (through `Signer`): the signature is 64
/// bytes and, Ed25519 being deterministic, a function of key and message.
/// It verifies for the message under the verifying key of the signing
/// key, which has 32 bytes.
#[verifier::external_body]
pub(crate) fn ed25519_sign(secret: &[u8], message: &[u8]) -> (signature: Vec<u8>)
    requires
        secret@.len() == 32,
    ensures
        signature@ == ed25519_signature(secret@, message@),
        signature@.len() == 64,
        verifies_under_own_key(secret@, message@, signature@),
{
    let bytes: [u8; 32] = secret.try_into().unwrap();
    let signing_key = ed25519_dalek::SigningKey::from_bytes(&bytes);
    ed25519_dalek::Signer::sign(&signing_key, message).to_bytes().to_vec()
}

/// `ed25519_dalek::VerifyingKey::from_bytes`, then `verify` (through
/// `Verifier`): `None` where the key does not decode, else whether the
/// signature verifies.
#[verifier::external_body]
pub(crate) fn ed25519_verify(public: &[u8], message: &[u8], signature: &[u8]) -> (outcome: Option<bool>)
    requires
        public@.len() == 32,
        signature@.len() == 64,
    ensures
        outcome == ed25519_verifies(public@, message@, signature@),
{
    let key_bytes: [u8; 32] = public.try_into().unwrap();
    let signature_bytes: [u8; 64] = signature.try_into().unwrap();
    match ed25519_dalek::VerifyingKey::from_bytes(&key_bytes) {
        Err(_) => None,
        Ok(key) => {
            let signature = ed25519_dalek::Signature::from_bytes(&signature_bytes);
            Some(ed25519_dalek::Verifier::verify(&key, message, &signature).is_ok())
        },
    }
}

/// `chacha20poly1305::ChaCha20Poly1305::encrypt` (through `Aead`): the
/// ciphertext is the plaintext's length plus the 16-byte tag, a function of
/// the four arguments, and decrypting it with the same key, nonce and
/// associated data gives the plaintext back.
#[verifier::external_body]
pub(crate) fn chacha20poly1305_encrypt(key: &[u8], nonce: &[u8], plaintext: &[u8], aad: &[u8]) -> (sealed: Option<Vec<u8>>)
    requires
        key@.len() == 32,
        nonce@.len() == 12,
        plaintext@.len() + 16 <= isize::MAX,
    ensures
        sealed matches Some(c) ==> chacha20poly1305_seal(key@, nonce@, plaintext@, aad@) == Some(c@),
        sealed is None ==> chacha20poly1305_seal(key@, nonce@, plaintext@, aad@) is None,
        sealed matches Some(c) ==> c@.len() == plaintext@.len() + 16,
        sealed matches Some(c) ==> chacha20poly1305_open(key@, nonce@, c@, aad@) == Some(plaintext@),
{
    let cipher = <chacha20poly1305::ChaCha20Poly1305 as chacha20poly1305::KeyInit>::new(
        chacha20poly1305::Key::from_slice(key),
    );
    let payload = chacha20poly1305::aead::Payload { msg: plaintext, aad };
    chacha20poly1305::aead::Aead::encrypt(&cipher, chacha20poly1305::Nonce::from_slice(nonce), payload).ok()
}

/// `chacha20poly1305::ChaCha20Poly1305::decrypt` (through `Aead`): the
/// plaintext, 16 bytes shorter than the ciphertext, or `None` where the tag
/// does not authenticate ciphertext and associated data.
#[verifier::external_body]
pub(crate) fn chacha20poly1305_decrypt(key: &[u8], nonce: &[u8], ciphertext: &[u8], aad: &[u8]) -> (opened: Option<Vec<u8>>)
    requires
        key@.len() == 32,
        nonce@.len() == 12,
    ensures
        opened matches Some(p) ==> chacha20poly1305_open(key@, nonce@, ciphertext@, aad@) == Some(p@),
        opened is None ==> chacha20poly1305_open(key@, nonce@, ciphertext@, aad@) is None,
        opened matches Some(p) ==> p@.len() + 16 == ciphertext@.len(),
{
    let cipher = <chacha20poly1305::ChaCha20Poly1305 as chacha20poly1305::KeyInit>::new(
        chacha20poly1305::Key::from_slice(key),
    );
    let payload = chacha20poly1305::aead::Payload { msg: ciphertext, aad };
    chacha20poly1305::aead::Aead::decrypt(&cipher, chacha20poly1305::Nonce::from_slice(nonce), payload).ok()
}

/// `hkdf::Hkdf::<Sha256>::new` with the salt given, then `expand`: `len`
/// bytes, a function of the four arguments. `expand` fails only for more
/// than 255 blocks of output, which `requires` leaves out.
#[verifier::external_body]
pub(crate) fn hkdf_sha256_derive(salt: &[u8], ikm: &[u8], info: &[u8], len: usize) -> (okm: Option<Vec<u8>>)
    requires
        len <= 8160,
    ensures
        okm is Some,
        okm matches Some(k) ==> k@ == hkdf_sha256(salt@, ikm@, info@, len as nat),
        okm matches Some(k) ==> k@.len() == len,
{
    let hkdf = hkdf::Hkdf::<sha2::Sha256>::new(Some(salt), ikm);
    let mut output = vec![0u8; len];
    match hkdf.expand(info, &mut output) {
        Ok(()) => Some(output),
        Err(_) => None,
    }
}

/// `uuid::Builder::from_random_bytes`, then the hyphenated text of the UUID:
/// a function of the 16 bytes alone.
#[verifier::external_body]
pub(crate) fn uuid_v4_from_bytes(random: &[u8]) -> (text: String)
    requires
        random@.len() == 16,
    ensures
        text@ == uuid_v4_text(random@),
{
    let bytes: [u8; 16] = random.try_into().unwrap();
    uuid::Builder::from_random_bytes(bytes).into_uuid().to_string()
}

} // verus!
