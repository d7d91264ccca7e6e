use construct_core::crypto::classic_suite::ClassicSuiteProvider;
use construct_core::crypto::x3dh::X3DH;
use construct_core::crypto::CryptoProvider;
use construct_core::error::CryptoError;
use construct_core::{is_known_suite, CLASSIC_SUITE_ID, PQ_HYBRID_SUITE_ID};

type Suite = ClassicSuiteProvider;

fn hkdf_reference(salt: &[u8], ikm: &[u8], info: &[u8], len: usize) -> Vec<u8> {
    let hk = hkdf::Hkdf::<sha2::Sha256>::new(Some(salt), ikm);
    let mut okm = vec![0u8; len];
    hk.expand(info, &mut okm).unwrap();
    okm
}

#[test]
fn suite_ids() {
    assert_eq!(Suite::suite_id(), 1);
    assert_eq!(CLASSIC_SUITE_ID, 1);
    assert_eq!(PQ_HYBRID_SUITE_ID, 2);
    assert!(is_known_suite(1));
    assert!(is_known_suite(2));
    assert!(!is_known_suite(0));
    assert!(!is_known_suite(3));
}

#[test]
fn kem_keys_are_x25519_pairs() {
    let (private_key, public_key) = Suite::generate_kem_keys().unwrap();
    assert_eq!(private_key.len(), 32);
    assert_eq!(public_key.len(), 32);
    assert_ne!(private_key, public_key);
    let bytes: [u8; 32] = private_key.clone().try_into().unwrap();
    let expected = x25519_dalek::PublicKey::from(&x25519_dalek::StaticSecret::from(bytes));
    assert_eq!(public_key, expected.to_bytes().to_vec());
    assert_eq!(Suite::from_private_key_to_public_key(&private_key).unwrap(), public_key);

    let (other_private, _) = Suite::generate_kem_keys().unwrap();
    assert_ne!(private_key, other_private);
}

#[test]
fn public_key_of_rfc7748_secret() {
    // RFC 7748, section 6.1: Alice's private and public key.
    let secret: Vec<u8> = vec![
        0x77, 0x07, 0x6d, 0x0a, 0x73, 0x18, 0xa5, 0x7d, 0x3c, 0x16, 0xc1, 0x72, 0x51, 0xb2, 0x66, 0x45, 0xdf, 0x4c,
        0x2f, 0x87, 0xeb, 0xc0, 0x99, 0x2a, 0xb1, 0x77, 0xfb, 0xa5, 0x1d, 0xb9, 0x2c, 0x2a,
    ];
    let public: Vec<u8> = vec![
        0x85, 0x20, 0xf0, 0x09, 0x89, 0x30, 0xa7, 0x54, 0x74, 0x8b, 0x7d, 0xdc, 0xb4, 0x3e, 0xf7, 0x5a, 0x0d, 0xbf,
        0x3a, 0x0d, 0x26, 0x38, 0x1a, 0xf4, 0xeb, 0xa4, 0xa9, 0x8e, 0xaa, 0x9b, 0x4e, 0x6a,
    ];
    assert_eq!(Suite::from_private_key_to_public_key(&secret).unwrap(), public);

    // Bob's private key and the shared secret of the two.
    let bob_secret: Vec<u8> = vec![
        0x5d, 0xab, 0x08, 0x7e, 0x62, 0x4a, 0x8a, 0x4b, 0x79, 0xe1, 0x7f, 0x8b, 0x83, 0x80, 0x0e, 0xe6, 0x6f, 0x3b,
        0xb1, 0x29, 0x26, 0x18, 0xb6, 0xfd, 0x1c, 0x2f, 0x8b, 0x27, 0xff, 0x88, 0xe0, 0xeb,
    ];
    let shared: Vec<u8> = vec![
        0x4a, 0x5d, 0x9d, 0x5b, 0xa4, 0xce, 0x2d, 0xe1, 0x72, 0x8e, 0x3b, 0xf4, 0x80, 0x35, 0x0f, 0x25, 0xe0, 0x7e,
        0x21, 0xc9, 0x47, 0xd1, 0x9e, 0x33, 0x76, 0xf0, 0x9b, 0x3c, 0x1e, 0x16, 0x17, 0x42,
    ];
    assert_eq!(Suite::kem_decapsulate(&bob_secret, &public).unwrap(), shared);
}

#[test]
fn private_key_of_wrong_length_is_invalid_input() {
    assert_eq!(Suite::from_private_key_to_public_key(&vec![1u8; 31]), Err(CryptoError::InvalidInput));
    assert_eq!(Suite::from_private_key_to_public_key(&Vec::new()), Err(CryptoError::InvalidInput));
    assert_eq!(Suite::kem_decapsulate(&vec![1u8; 33], &[2u8; 32]), Err(CryptoError::InvalidInput));
    assert_eq!(Suite::kem_decapsulate(&vec![1u8; 32], &[2u8; 31]), Err(CryptoError::InvalidInput));
    assert_eq!(Suite::kem_encapsulate(&vec![1u8; 16]), Err(CryptoError::InvalidInput));
    assert_eq!(Suite::sign(&vec![1u8; 16], b"m"), Err(CryptoError::InvalidInput));
}

#[test]
fn key_agreement_is_symmetric() {
    let (a_private, a_public) = Suite::generate_kem_keys().unwrap();
    let (b_private, b_public) = Suite::generate_kem_keys().unwrap();
    let ab = Suite::kem_decapsulate(&a_private, &b_public).unwrap();
    let ba = Suite::kem_decapsulate(&b_private, &a_public).unwrap();
    assert_eq!(ab.len(), 32);
    assert_eq!(ab, ba);
    assert_ne!(ab, a_private);
    assert_ne!(ab, b_public);
}

#[test]
fn encapsulation_is_recovered_by_decapsulation() {
    let (private_key, public_key) = Suite::generate_kem_keys().unwrap();
    let (ciphertext, shared) = Suite::kem_encapsulate(&public_key).unwrap();
    assert_eq!(ciphertext.len(), 32);
    assert_eq!(shared.len(), 32);
    assert_eq!(Suite::kem_decapsulate(&private_key, &ciphertext).unwrap(), shared);
    let (other_ciphertext, _) = Suite::kem_encapsulate(&public_key).unwrap();
    assert_ne!(ciphertext, other_ciphertext);
}

#[test]
fn signatures_verify_and_tampering_is_caught() {
    let (signing_key, verifying_key) = Suite::generate_signature_keys().unwrap();
    assert_eq!(signing_key.len(), 32);
    assert_eq!(verifying_key.len(), 32);
    let signature = Suite::sign(&signing_key, b"a message").unwrap();
    assert_eq!(signature.len(), 64);
    assert_eq!(Suite::verify(&verifying_key, b"a message", &signature), Ok(()));
    assert_eq!(
        Suite::verify(&verifying_key, b"another message", &signature),
        Err(CryptoError::SignatureVerification)
    );
    let mut forged = signature.clone();
    forged[0] ^= 1;
    assert_eq!(Suite::verify(&verifying_key, b"a message", &forged), Err(CryptoError::SignatureVerification));
    // Signing is deterministic.
    assert_eq!(Suite::sign(&signing_key, b"a message").unwrap(), signature);
}

#[test]
fn signature_of_rfc8032_test_1() {
    let secret: Vec<u8> = vec![
        0x9d, 0x61, 0xb1, 0x9d, 0xef, 0xfd, 0x5a, 0x60, 0xba, 0x84, 0x4a, 0xf4, 0x92, 0xec, 0x2c, 0xc4, 0x44, 0x49,
        0xc5, 0x69, 0x7b, 0x32, 0x69, 0x19, 0x70, 0x3b, 0xac, 0x03, 0x1c, 0xae, 0x7f, 0x60,
    ];
    let public: Vec<u8> = vec![
        0xd7, 0x5a, 0x98, 0x01, 0x82, 0xb1, 0x0a, 0xb7, 0xd5, 0x4b, 0xfe, 0xd3, 0xc9, 0x64, 0x07, 0x3a, 0x0e, 0xe1,
        0x72, 0xf3, 0xda, 0xa6, 0x23, 0x25, 0xaf, 0x02, 0x1a, 0x68, 0xf7, 0x07, 0x51, 0x1a,
    ];
    let signature: Vec<u8> = vec![
        0xe5, 0x56, 0x43, 0x00, 0xc3, 0x60, 0xac, 0x72, 0x90, 0x86, 0xe2, 0xcc, 0x80, 0x6e, 0x82, 0x8a, 0x84, 0x87,
        0x7f, 0x1e, 0xb8, 0xe5, 0xd9, 0x74, 0xd8, 0x73, 0xe0, 0x65, 0x22, 0x49, 0x01, 0x55, 0x5f, 0xb8, 0x82, 0x15,
        0x90, 0xa3, 0x3b, 0xac, 0xc6, 0x1e, 0x39, 0x70, 0x1c, 0xf9, 0xb4, 0x6b, 0xd2, 0x5b, 0xf5, 0xf0, 0x59, 0x5b,
        0xbe, 0x24, 0x65, 0x51, 0x41, 0x43, 0x8e, 0x7a, 0x10, 0x0b,
    ];
    assert_eq!(Suite::sign(&secret, b"").unwrap(), signature);
    assert_eq!(Suite::verify(&public, b"", &signature), Ok(()));
}

#[test]
fn verify_rejects_malformed_input() {
    let (signing_key, verifying_key) = Suite::generate_signature_keys().unwrap();
    let signature = Suite::sign(&signing_key, b"m").unwrap();
    assert_eq!(Suite::verify(&vec![0u8; 31], b"m", &signature), Err(CryptoError::InvalidInput));
    assert_eq!(Suite::verify(&verifying_key, b"m", &signature[..63]), Err(CryptoError::InvalidInput));
    assert_eq!(Suite::verify(&verifying_key, b"m", &[]), Err(CryptoError::InvalidInput));
    // No point of the curve has the coordinate y = 2.
    let mut not_a_point = vec![0u8; 32];
    not_a_point[0] = 2;
    assert_eq!(Suite::verify(&not_a_point, b"m", &signature), Err(CryptoError::InvalidInput));
}

#[test]
fn aead_round_trip_and_tag() {
    let key = vec![7u8; 32];
    let nonce = [9u8; 12];
    let ciphertext = Suite::aead_encrypt(&key, &nonce, b"hello", None).unwrap();
    assert_eq!(ciphertext.len(), 5 + 16);
    assert_ne!(&ciphertext[..5], b"hello");
    assert_eq!(Suite::aead_decrypt(&key, &nonce, &ciphertext, None).unwrap(), b"hello".to_vec());
    // No associated data and empty associated data are the same.
    assert_eq!(Suite::aead_encrypt(&key, &nonce, b"hello", Some(b"")).unwrap(), ciphertext);
    assert_eq!(Suite::aead_decrypt(&key, &nonce, &ciphertext, Some(b"")).unwrap(), b"hello".to_vec());
    // Other associated data, key or nonce do not open it.
    assert_eq!(Suite::aead_decrypt(&key, &nonce, &ciphertext, Some(b"x")), Err(CryptoError::AeadDecryption));
    assert_eq!(Suite::aead_decrypt(&vec![8u8; 32], &nonce, &ciphertext, None), Err(CryptoError::AeadDecryption));
    assert_eq!(Suite::aead_decrypt(&key, &[1u8; 12], &ciphertext, None), Err(CryptoError::AeadDecryption));
    let mut tampered = ciphertext.clone();
    tampered[2] ^= 0x80;
    assert_eq!(Suite::aead_decrypt(&key, &nonce, &tampered, None), Err(CryptoError::AeadDecryption));
    assert_eq!(Suite::aead_decrypt(&key, &nonce, &ciphertext[..15], None), Err(CryptoError::AeadDecryption));
}

#[test]
fn aead_of_rfc8439() {
    // RFC 8439, section 2.8.2.
    let key: Vec<u8> = (0x80u8..=0x9f).collect();
    let nonce: [u8; 12] = [0x07, 0x00, 0x00, 0x00, 0x40, 0x41, 0x42, 0x43, 0x44, 0x45, 0x46, 0x47];
    let aad: [u8; 12] = [0x50, 0x51, 0x52, 0x53, 0xc0, 0xc1, 0xc2, 0xc3, 0xc4, 0xc5, 0xc6, 0xc7];
    let plaintext = b"Ladies and Gentlemen of the class of '99: If I could offer you only one tip for the future, sunscreen would be it.";
    let sealed = Suite::aead_encrypt(&key, &nonce, plaintext, Some(&aad)).unwrap();
    let tag: [u8; 16] = [
        0x1a, 0xe1, 0x0b, 0x59, 0x4f, 0x09, 0xe2, 0x6a, 0x7e, 0x90, 0x2e, 0xcb, 0xd0, 0x60, 0x06, 0x91,
    ];
    assert_eq!(sealed.len(), plaintext.len() + 16);
    assert_eq!(&sealed[..4], &[0xd3, 0x1a, 0x8d, 0x34]);
    assert_eq!(&sealed[plaintext.len()..], &tag);
    assert_eq!(Suite::aead_decrypt(&key, &nonce, &sealed, Some(&aad)).unwrap(), plaintext.to_vec());
}

#[test]
fn aead_rejects_keys_and_nonces_of_wrong_length() {
    assert_eq!(Suite::aead_encrypt(&vec![7u8; 31], &[9u8; 12], b"x", None), Err(CryptoError::InvalidInput));
    assert_eq!(Suite::aead_encrypt(&Vec::new(), &[9u8; 12], b"x", None), Err(CryptoError::InvalidInput));
    assert_eq!(Suite::aead_encrypt(&vec![7u8; 32], &[9u8; 11], b"x", None), Err(CryptoError::InvalidInput));
    assert_eq!(Suite::aead_decrypt(&vec![7u8; 33], &[9u8; 12], &[0u8; 20], None), Err(CryptoError::InvalidInput));
    assert_eq!(Suite::aead_decrypt(&vec![7u8; 32], &[9u8; 24], &[0u8; 20], None), Err(CryptoError::InvalidInput));
}

#[test]
fn hkdf_matches_rfc5869_test_1() {
    let ikm = [0x0bu8; 22];
    let salt: Vec<u8> = (0x00u8..=0x0c).collect();
    let info: Vec<u8> = (0xf0u8..=0xf9).collect();
    let expected: Vec<u8> = vec![
        0x3c, 0xb2, 0x5f, 0x25, 0xfa, 0xac, 0xd5, 0x7a, 0x90, 0x43, 0x4f, 0x64, 0xd0, 0x36, 0x2f, 0x2a, 0x2d, 0x2d,
        0x0a, 0x90, 0xcf, 0x1a, 0x5a, 0x4c, 0x5d, 0xb0, 0x2d, 0x56, 0xec, 0xc4, 0xc5, 0xbf, 0x34, 0x00, 0x72, 0x08,
        0xd5, 0xb8, 0x87, 0x18, 0x58, 0x65,
    ];
    assert_eq!(Suite::hkdf_derive_key(&salt, &ikm, &info, 42).unwrap(), expected);
}

#[test]
fn hkdf_length_limits() {
    assert_eq!(Suite::hkdf_derive_key(b"", b"ikm", b"info", 0).unwrap().len(), 0);
    assert_eq!(Suite::hkdf_derive_key(b"", b"ikm", b"info", 8160).unwrap().len(), 8160);
    assert_eq!(Suite::hkdf_derive_key(b"", b"ikm", b"info", 8161), Err(CryptoError::KeyDerivation));
    assert_eq!(Suite::hkdf_derive_key(b"", b"ikm", b"info", usize::MAX), Err(CryptoError::KeyDerivation));
}

#[test]
fn kdf_rk_is_hkdf_with_the_root_info() {
    let root_key = vec![3u8; 32];
    let dh_output = [5u8; 32];
    let (new_root, chain) = Suite::kdf_rk(&root_key, &dh_output).unwrap();
    let okm = hkdf_reference(&root_key, &dh_output, b"Double-Ratchet-Root-Key-Expansion", 64);
    assert_eq!(new_root, okm[..32].to_vec());
    assert_eq!(chain, okm[32..].to_vec());
    assert_ne!(new_root, root_key);
}

#[test]
fn kdf_ck_is_hkdf_with_the_chain_info() {
    let chain_key = vec![4u8; 32];
    let (message_key, next_chain) = Suite::kdf_ck(&chain_key).unwrap();
    let okm = hkdf_reference(&chain_key, b"", b"Double-Ratchet-Chain-Key-Expansion", 64);
    assert_eq!(message_key, okm[..32].to_vec());
    assert_eq!(next_chain, okm[32..].to_vec());
    assert_ne!(next_chain, chain_key);
    // An empty chain key is a salt like any other.
    let (from_empty, _) = Suite::kdf_ck(&Vec::new()).unwrap();
    assert_eq!(from_empty.len(), 32);
}

#[test]
fn nonces_have_the_length_asked_for() {
    assert_eq!(Suite::generate_nonce(12).unwrap().len(), 12);
    assert_eq!(Suite::generate_nonce(0).unwrap().len(), 0);
    assert_ne!(Suite::generate_nonce(12).unwrap(), Suite::generate_nonce(12).unwrap());
    assert_eq!(Suite::generate_nonce(usize::MAX), Err(CryptoError::InvalidInput));
}

#[test]
fn keys_from_bytes_are_the_bytes() {
    assert_eq!(Suite::kem_public_key_from_bytes(vec![1, 2, 3]), vec![1, 2, 3]);
    assert_eq!(Suite::kem_private_key_from_bytes(vec![4, 5]), vec![4, 5]);
    assert_eq!(Suite::aead_key_from_bytes(vec![6]), vec![6]);
    assert_eq!(Suite::signature_public_key_from_bytes(Vec::new()), Vec::<u8>::new());
}

#[test]
fn x3dh_root_key_is_hkdf_of_the_shared_secret() {
    let (alice_private, alice_public) = Suite::generate_kem_keys().unwrap();
    let (bob_private, bob_public) = Suite::generate_kem_keys().unwrap();
    let (bob_prekey_private, bob_prekey_public) = Suite::generate_kem_keys().unwrap();
    let (bob_signing, bob_verifying) = Suite::generate_signature_keys().unwrap();
    let signature = Suite::sign(&bob_signing, &bob_prekey_public).unwrap();

    let seed = X3DH::<Suite>::perform_x3dh(
        &alice_private,
        &alice_private,
        &bob_public,
        &bob_prekey_public,
        &signature,
        &bob_verifying,
        1,
    )
    .unwrap();
    let shared = Suite::kem_decapsulate(&alice_private, &bob_public).unwrap();
    assert_eq!(seed, hkdf_reference(b"", &shared, b"X3DH Root Key", 32));

    // The peer derives the same seed from its side.
    let (alice_signing, alice_verifying) = Suite::generate_signature_keys().unwrap();
    let alice_signature = Suite::sign(&alice_signing, &alice_public).unwrap();
    let seed_of_bob = X3DH::<Suite>::perform_x3dh(
        &bob_private,
        &bob_prekey_private,
        &alice_public,
        &alice_public,
        &alice_signature,
        &alice_verifying,
        1,
    )
    .unwrap();
    assert_eq!(seed_of_bob, seed);
}

#[test]
fn x3dh_failures() {
    let (alice_private, _) = Suite::generate_kem_keys().unwrap();
    let (_, bob_public) = Suite::generate_kem_keys().unwrap();
    let (_, bob_prekey_public) = Suite::generate_kem_keys().unwrap();
    let (bob_signing, bob_verifying) = Suite::generate_signature_keys().unwrap();
    let signature = Suite::sign(&bob_signing, &bob_prekey_public).unwrap();

    let run = |identity_public: &Vec<u8>, prekey: &Vec<u8>, signature: &[u8], verifying: &Vec<u8>, suite: u16| {
        X3DH::<Suite>::perform_x3dh(&alice_private, &alice_private, identity_public, prekey, signature, verifying, suite)
    };
    assert!(run(&bob_public, &bob_prekey_public, &signature, &bob_verifying, 1).is_ok());
    assert_eq!(
        run(&bob_public, &bob_prekey_public, &signature, &bob_verifying, 2),
        Err(CryptoError::SuiteMismatch)
    );
    let mut bad_signature = signature.clone();
    bad_signature[10] ^= 0x04;
    assert_eq!(
        run(&bob_public, &bob_prekey_public, &bad_signature, &bob_verifying, 1),
        Err(CryptoError::SignatureVerification)
    );
    assert_eq!(
        run(&bob_public, &bob_prekey_public, &signature[..10], &bob_verifying, 1),
        Err(CryptoError::SignatureVerification)
    );
    assert_eq!(
        run(&bob_public, &bob_public, &signature, &bob_verifying, 1),
        Err(CryptoError::SignatureVerification)
    );
    assert_eq!(
        run(&vec![1u8; 5], &bob_prekey_public, &signature, &bob_verifying, 1),
        Err(CryptoError::InvalidInput)
    );
}

#[test]
fn generated_registration_bundle_is_signed() {
    let bundle = X3DH::<Suite>::generate_registration_bundle().unwrap();
    assert_eq!(bundle.identity_public.len(), 32);
    assert_eq!(bundle.signed_prekey_public.len(), 32);
    assert_eq!(bundle.signature.len(), 64);
    assert_eq!(bundle.verifying_key.len(), 32);
    assert_eq!(bundle.suite_id, 1);
    assert_eq!(Suite::verify(&bundle.verifying_key, &bundle.signed_prekey_public, &bundle.signature), Ok(()));
}

#[test]
fn registration_bundle_for_given_keys() {
    let identity = Suite::generate_kem_keys().unwrap();
    let prekey = Suite::generate_kem_keys().unwrap();
    let signing = Suite::generate_signature_keys().unwrap();
    let bundle = X3DH::<Suite>::registration_bundle_for(&identity, &prekey, &signing).unwrap();
    assert_eq!(bundle.identity_public, identity.1);
    assert_eq!(bundle.signed_prekey_public, prekey.1);
    assert_eq!(bundle.verifying_key, signing.1);
    assert_eq!(bundle.signature, Suite::sign(&signing.0, &prekey.1).unwrap());
    assert_eq!(bundle.suite_id, 1);
    let bad_signing = (vec![0u8; 3], signing.1.clone());
    assert_eq!(
        X3DH::<Suite>::registration_bundle_for(&identity, &prekey, &bad_signing).err(),
        Some(CryptoError::InvalidInput)
    );
}

#[test]
fn error_descriptions() {
    assert_eq!(CryptoError::InvalidInput.message(), "invalid input");
    assert_eq!(CryptoError::SignatureVerification.message(), "signature verification failed");
    assert_eq!(CryptoError::SuiteMismatch.message(), "suite mismatch");
    assert_eq!(CryptoError::Uninitialized.message(), "key manager not initialized");
    assert_eq!(CryptoError::SessionNotFound.message(), "session not found");
    assert_eq!(CryptoError::AeadEncryption.message(), "encryption failed");
    assert_eq!(CryptoError::AeadDecryption.message(), "decryption failed");
    assert_eq!(CryptoError::TooManySkipped.message(), "too many skipped messages");
    assert_eq!(CryptoError::MessageKeyNotFound.message(), "message key not found");
    assert_eq!(CryptoError::Serialization.message(), "serialization failed");
    assert_eq!(CryptoError::KeyDerivation.message(), "key derivation failed");
}

#[test]
fn verifying_key_follows_from_the_signing_key() {
    let (signing, verifying) = ClassicSuiteProvider::generate_signature_keys().unwrap();
    assert_eq!(ClassicSuiteProvider::from_signing_key_to_verifying_key(&signing), Ok(verifying.clone()));
    assert_ne!(signing, verifying);
    assert_eq!(
        ClassicSuiteProvider::from_signing_key_to_verifying_key(&signing[..31].to_vec()),
        Err(CryptoError::InvalidInput)
    );
    assert_eq!(ClassicSuiteProvider::from_signing_key_to_verifying_key(&Vec::new()), Err(CryptoError::InvalidInput));
    // The fixed all-zero secret has the public key that the signature scheme defines for it.
    let zero = ClassicSuiteProvider::from_signing_key_to_verifying_key(&vec![0u8; 32]).unwrap();
    assert_eq!(
        zero,
        vec![
            0x3b, 0x6a, 0x27, 0xbc, 0xce, 0xb6, 0xa4, 0x2d, 0x62, 0xa3, 0xa8, 0xd0, 0x2a, 0x6f, 0x0d, 0x73, 0x65, 0x32,
            0x15, 0x77, 0x1d, 0xe2, 0x43, 0xa6, 0x3a, 0xc0, 0x48, 0xa1, 0x8b, 0x59, 0xda, 0x29
        ]
    );
}

#[test]
fn every_signature_verifies_under_the_key_of_its_signer() {
    for length in [0usize, 1, 32, 255] {
        let (signing, verifying) = ClassicSuiteProvider::generate_signature_keys().unwrap();
        let message = vec![0xa5u8; length];
        let signature = ClassicSuiteProvider::sign(&signing, &message).unwrap();
        assert_eq!(signature.len(), 64);
        assert_eq!(ClassicSuiteProvider::verify(&verifying, &message, &signature), Ok(()));
        let derived = ClassicSuiteProvider::from_signing_key_to_verifying_key(&signing).unwrap();
        assert_eq!(ClassicSuiteProvider::verify(&derived, &message, &signature), Ok(()));
    }
}
