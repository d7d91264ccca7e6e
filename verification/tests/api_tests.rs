use construct_core::api::crypto::{
    base64_to_bytes, bundle_to_text, bytes_to_base64, create_client, deserialize_key_bundle,
    generate_random_bytes, get_registration_bundle, plaintext_to_text, serialize_key_bundle, CryptoCore, KeyBundle,
};
use construct_core::api::messaging::{
    decrypt_message, encrypt_message, init_receiving_session, init_session, EncryptedMessage,
};
use construct_core::crypto::classic_suite::ClassicSuiteProvider;
use construct_core::crypto::client::ClientCrypto;
use construct_core::crypto::CryptoProvider;
use construct_core::error::CryptoError;
use construct_core::protocol::validation::validate_uuid;
use construct_core::state::app::{ConnectionState, UiState};
use construct_core::state::contacts::ContactsState;
use construct_core::state::conversations::ConversationsState;
use construct_core::storage::models::{StoredContact, StoredMessage};

type Suite = ClassicSuiteProvider;

fn sample_bundle() -> KeyBundle {
    KeyBundle {
        identity_public: (0u8..32).collect(),
        signed_prekey_public: vec![0xffu8; 32],
        signature: (100u8..164).collect(),
        verifying_key: vec![0u8; 32],
        suite_id: 1,
    }
}

fn same_bundle(a: &KeyBundle, b: &KeyBundle) -> bool {
    a.identity_public == b.identity_public
        && a.signed_prekey_public == b.signed_prekey_public
        && a.signature == b.signature
        && a.verifying_key == b.verifying_key
        && a.suite_id == b.suite_id
}

/// Two clients that hold the same identity key, so that the responder
/// follows the initiator's first chain.
fn paired_clients() -> (ClientCrypto<Suite>, ClientCrypto<Suite>) {
    let identity = Suite::generate_kem_keys().unwrap();
    let alice = ClientCrypto::<Suite>::new_with_keys(
        identity.clone(),
        Suite::generate_kem_keys().unwrap(),
        Suite::generate_signature_keys().unwrap(),
    )
    .unwrap();
    let bob = ClientCrypto::<Suite>::new_with_keys(
        identity,
        Suite::generate_kem_keys().unwrap(),
        Suite::generate_signature_keys().unwrap(),
    )
    .unwrap();
    (alice, bob)
}

#[test]
fn test_crypto_manager_creation() {
    let manager = CryptoCore::<ClassicSuiteProvider>::new();
    assert!(manager.is_ok());

    let manager = manager.unwrap();
    assert_eq!(manager.active_sessions_count(), 0);
}

#[test]
fn test_base64_conversion() {
    let data = b"hello world";
    let b64 = bytes_to_base64(data);
    let decoded = base64_to_bytes(&b64).unwrap();
    assert_eq!(data, decoded.as_slice());
}

#[test]
fn test_random_bytes() {
    let bytes1 = generate_random_bytes(32).unwrap();
    let bytes2 = generate_random_bytes(32).unwrap();

    assert_eq!(bytes1.len(), 32);
    assert_eq!(bytes2.len(), 32);
    assert_ne!(bytes1, bytes2);
}

#[test]
fn test_export_registration_bundle() {
    let manager = CryptoCore::<ClassicSuiteProvider>::new().unwrap();
    let bundle = manager.export_registration_bundle();
    assert!(bundle.is_ok());

    let bundle = bundle.unwrap();
    assert_eq!(bundle.identity_public.len(), 32);
    assert_eq!(bundle.signed_prekey_public.len(), 32);
    assert_eq!(bundle.signature.len(), 64);
    assert_eq!(bundle.verifying_key.len(), 32);
}

#[test]
fn base64_is_the_standard_alphabet_with_padding() {
    assert_eq!(bytes_to_base64(b"hello world"), "aGVsbG8gd29ybGQ=");
    assert_eq!(bytes_to_base64(b""), "");
    assert_eq!(bytes_to_base64(&[0xfb, 0xff]), "+/8=");
    assert_eq!(bytes_to_base64(&[0u8; 32]).len(), 44);
    assert_eq!(bytes_to_base64(&[0u8; 64]).len(), 88);
    assert_eq!(base64_to_bytes("aGVsbG8gd29ybGQ=").unwrap(), b"hello world".to_vec());
    assert_eq!(base64_to_bytes("not base64!").err(), Some(CryptoError::Serialization));
    assert_eq!(base64_to_bytes("aGVsbG8gd29ybGQ").err(), Some(CryptoError::Serialization));
}

#[test]
fn random_bytes_of_any_length() {
    assert_eq!(generate_random_bytes(0).unwrap().len(), 0);
    assert_eq!(generate_random_bytes(1000).unwrap().len(), 1000);
    assert_eq!(generate_random_bytes(usize::MAX).err(), Some(CryptoError::InvalidInput));
}

#[test]
fn bundle_in_text() {
    let text = bundle_to_text(&sample_bundle()).unwrap();
    assert_eq!(text.identity_public, "AAECAwQFBgcICQoLDA0ODxAREhMUFRYXGBkaGxwdHh8=");
    assert_eq!(text.identity_public.len(), 44);
    assert_eq!(text.signed_prekey_public.len(), 44);
    assert_eq!(text.signature.len(), 88);
    assert_eq!(text.verifying_key, "AAAAAAAAAAAAAAAAAAAAAAAAAAAAAAAAAAAAAAAAAAA=");
    assert_eq!(text.suite_id, "1");
    let mut other = sample_bundle();
    other.suite_id = 65535;
    assert_eq!(bundle_to_text(&other).unwrap().suite_id, "65535");
}

#[test]
fn bundle_round_trip() {
    let bundle = sample_bundle();
    let json = serialize_key_bundle(&bundle).unwrap();
    let back = deserialize_key_bundle(&json).unwrap();
    assert!(same_bundle(&bundle, &back));

    let empty = KeyBundle {
        identity_public: Vec::new(),
        signed_prekey_public: Vec::new(),
        signature: Vec::new(),
        verifying_key: Vec::new(),
        suite_id: 0,
    };
    assert!(same_bundle(&empty, &deserialize_key_bundle(&serialize_key_bundle(&empty).unwrap()).unwrap()));

    let core = CryptoCore::<Suite>::new().unwrap();
    let exported = core.export_public_bundle().unwrap();
    let json = serialize_key_bundle(&exported).unwrap();
    assert!(same_bundle(&exported, &deserialize_key_bundle(&json).unwrap()));
}

#[test]
fn bundle_json_has_the_five_members() {
    let json = serialize_key_bundle(&sample_bundle()).unwrap();
    let value: serde_json::Value = serde_json::from_str(&json).unwrap();
    let object = value.as_object().unwrap();
    assert_eq!(object.len(), 5);
    assert_eq!(object["identity_public"], "AAECAwQFBgcICQoLDA0ODxAREhMUFRYXGBkaGxwdHh8=");
    assert_eq!(object["signed_prekey_public"].as_str().unwrap().len(), 44);
    assert_eq!(object["signature"].as_str().unwrap().len(), 88);
    assert_eq!(object["verifying_key"], "AAAAAAAAAAAAAAAAAAAAAAAAAAAAAAAAAAAAAAAAAAA=");
    assert_eq!(object["suite_id"], "1");
}

#[test]
fn bundle_json_is_read_in_any_layout() {
    let json = "{\n  \"suite_id\": \"1\",\n  \"verifying_key\": \"AAAA\",\n  \"signature\": \"/w==\",\n  \
                \"signed_prekey_public\": \"\",\n  \"identity_public\": \"AQID\",\n  \"extra\": 5\n}";
    let bundle = deserialize_key_bundle(json).unwrap();
    assert_eq!(bundle.identity_public, vec![1, 2, 3]);
    assert_eq!(bundle.signed_prekey_public, Vec::<u8>::new());
    assert_eq!(bundle.signature, vec![0xff]);
    assert_eq!(bundle.verifying_key, vec![0, 0, 0]);
    assert_eq!(bundle.suite_id, 1);
}

#[test]
fn malformed_bundle_json_is_refused() {
    let refuse = |json: &str| assert_eq!(deserialize_key_bundle(json).err(), Some(CryptoError::Serialization));
    refuse("");
    refuse("not json");
    refuse("[1, 2]");
    refuse("{}");
    // A member is missing.
    refuse("{\"identity_public\":\"\",\"signed_prekey_public\":\"\",\"signature\":\"\",\"verifying_key\":\"\"}");
    // The suite is not a string.
    refuse("{\"identity_public\":\"\",\"signed_prekey_public\":\"\",\"signature\":\"\",\"verifying_key\":\"\",\"suite_id\":1}");
    // The suite does not fit sixteen bits.
    refuse("{\"identity_public\":\"\",\"signed_prekey_public\":\"\",\"signature\":\"\",\"verifying_key\":\"\",\"suite_id\":\"65536\"}");
    refuse("{\"identity_public\":\"\",\"signed_prekey_public\":\"\",\"signature\":\"\",\"verifying_key\":\"\",\"suite_id\":\"-1\"}");
    // A key is no base64.
    refuse("{\"identity_public\":\"!\",\"signed_prekey_public\":\"\",\"signature\":\"\",\"verifying_key\":\"\",\"suite_id\":\"1\"}");
}

#[test]
fn key_bundle_conversions_keep_the_fields() {
    let bundle = sample_bundle();
    let public = bundle.to_public_bundle();
    assert_eq!(public.identity_public, bundle.identity_public);
    assert_eq!(public.signature, bundle.signature);
    assert_eq!(public.suite_id, 1);
    let back = KeyBundle::from(public);
    assert!(same_bundle(&bundle, &back));
    let public_again: construct_core::crypto::x3dh::PublicKeyBundle = back.into();
    assert_eq!(public_again.verifying_key, bundle.verifying_key);
    let client = create_client::<Suite>().unwrap();
    let registration = client.get_registration_bundle();
    let from_registration = KeyBundle::from(registration.clone());
    assert_eq!(from_registration.verifying_key, registration.verifying_key);
    assert!(same_bundle(&from_registration, &get_registration_bundle(&client).unwrap()));
}

#[test]
fn plaintext_must_be_utf8() {
    assert_eq!(plaintext_to_text(b"hello".to_vec()).unwrap(), "hello");
    assert_eq!(plaintext_to_text("\u{43f}\u{440}".as_bytes().to_vec()).unwrap(), "\u{43f}\u{440}");
    assert_eq!(plaintext_to_text(vec![0xff, 0xfe]).err(), Some(CryptoError::Serialization));
}

#[test]
fn client_bundle_is_signed_by_its_own_key() {
    let client = ClientCrypto::<Suite>::new().unwrap();
    let bundle = client.get_registration_bundle();
    assert_eq!(bundle.suite_id, 1);
    assert_eq!(Suite::verify(&bundle.verifying_key, &bundle.signed_prekey_public, &bundle.signature), Ok(()));
    assert_eq!(client.session_count(), 0);
}

#[test]
fn clients_exchange_messages() {
    let (mut alice, mut bob) = paired_clients();
    let alice_bundle = KeyBundle::from(alice.get_registration_bundle()).to_public_bundle();
    let bob_bundle = KeyBundle::from(bob.get_registration_bundle()).to_public_bundle();

    let alice_session = alice.init_session("bob", &bob_bundle).unwrap();
    assert!(validate_uuid(&alice_session).is_ok());
    assert!(alice.has_session(&alice_session));
    assert_eq!(alice.session_count(), 1);
    let hello = alice.encrypt_ratchet_message(&alice_session, b"hello").unwrap();

    let bob_session = bob.init_receiving_session("alice", &alice_bundle, &hello).unwrap();
    assert_ne!(alice_session, bob_session);
    assert_eq!(bob.decrypt_ratchet_message(&bob_session, &hello).unwrap(), b"hello".to_vec());
    let world = bob.encrypt_ratchet_message(&bob_session, b"world").unwrap();
    assert_eq!(alice.decrypt_ratchet_message(&alice_session, &world).unwrap(), b"world".to_vec());

    // Export and restore keep the session going under its id.
    let stored = bob.export_session(&bob_session).unwrap();
    let mut bob_again = ClientCrypto::<Suite>::new().unwrap();
    let restored = bob_again.restore_session(&stored).unwrap();
    assert_eq!(restored, bob_session);
    let more = alice.encrypt_ratchet_message(&alice_session, b"more").unwrap();
    assert_eq!(bob_again.decrypt_ratchet_message(&restored, &more).unwrap(), b"more".to_vec());
    assert_eq!(bob_again.restore_session(&[1, 2, 3]).err(), Some(CryptoError::Serialization));
}

#[test]
fn client_reports_unknown_sessions() {
    let (mut alice, _) = paired_clients();
    assert_eq!(alice.encrypt_ratchet_message("nope", b"x").err(), Some(CryptoError::SessionNotFound));
    assert_eq!(alice.export_session("nope").err(), Some(CryptoError::SessionNotFound));
    assert!(!alice.has_session("nope"));
    let message = construct_core::crypto::double_ratchet::EncryptedRatchetMessage {
        dh_public_key: [0u8; 32],
        message_number: 0,
        ciphertext: Vec::new(),
        nonce: Vec::new(),
        previous_chain_length: 0,
        suite_id: 1,
    };
    assert_eq!(alice.decrypt_ratchet_message("nope", &message).err(), Some(CryptoError::SessionNotFound));
}

#[test]
fn signature_failure_aborts_handshake() {
    let (mut alice, bob) = paired_clients();
    let mut bob_bundle = KeyBundle::from(bob.get_registration_bundle()).to_public_bundle();
    bob_bundle.signature[0] ^= 0x01;
    assert_eq!(alice.init_session("bob", &bob_bundle).err(), Some(CryptoError::SignatureVerification));
    assert_eq!(alice.session_count(), 0);
    assert_eq!(
        alice.init_double_ratchet_session("bob", &bob_bundle).err(),
        Some(CryptoError::SignatureVerification)
    );

    let mut other_suite = KeyBundle::from(bob.get_registration_bundle()).to_public_bundle();
    other_suite.suite_id = 2;
    assert_eq!(alice.init_session("bob", &other_suite).err(), Some(CryptoError::SuiteMismatch));
    assert_eq!(alice.session_count(), 0);
}

#[test]
fn messaging_functions_carry_text() {
    let (mut alice, mut bob) = paired_clients();
    let alice_bundle = get_registration_bundle(&alice).unwrap();
    let bob_bundle = get_registration_bundle(&bob).unwrap();
    let alice_session = init_session(&mut alice, "bob", &bob_bundle).unwrap();
    let hello: EncryptedMessage = encrypt_message(&mut alice, &alice_session, "hello").unwrap();
    assert_eq!(hello.session_id, alice_session);
    assert_eq!(hello.suite_id, 1);
    assert_eq!(hello.message_number, 0);
    let bob_session = init_receiving_session(&mut bob, "alice", &alice_bundle, &hello).unwrap();
    assert_eq!(decrypt_message(&mut bob, &bob_session, hello.clone()).unwrap(), "hello");
    assert_eq!(
        decrypt_message(&mut bob, &bob_session, hello.clone()).err(),
        Some(CryptoError::MessageKeyNotFound)
    );
    assert_eq!(decrypt_message(&mut bob, "nope", hello.clone()).err(), Some(CryptoError::SessionNotFound));
    assert_eq!(encrypt_message(&mut bob, "nope", "x").err(), Some(CryptoError::SessionNotFound));

    let ratchet: construct_core::crypto::double_ratchet::EncryptedRatchetMessage = hello.clone().into();
    assert_eq!(ratchet.ciphertext, hello.ciphertext);
    assert_eq!(ratchet.nonce, hello.nonce);
    assert_eq!(ratchet.dh_public_key, hello.dh_public_key);
    let again = EncryptedMessage::for_session("sid".to_string(), ratchet);
    assert_eq!(again.session_id, "sid");
    assert_eq!(again.ciphertext, hello.ciphertext);
}

#[test]
fn core_holds_keys_sessions_and_client() {
    let mut core = CryptoCore::<Suite>::new().unwrap();
    assert!(core.key_manager().is_initialized());
    assert_eq!(core.session_manager().session_count(), 0);
    assert_eq!(core.client().session_count(), 0);
    assert!(!core.has_session("bob"));

    let bundle = core.export_registration_bundle().unwrap();
    let text: construct_core::api::crypto::RegistrationBundleJson = core.export_registration_bundle_b64().unwrap();
    assert_eq!(text.identity_public, bytes_to_base64(&bundle.identity_public));
    assert_eq!(text.signature.len(), 88);
    assert_eq!(text.suite_id, "1");
    assert!(same_bundle(&bundle, &core.export_public_bundle().unwrap()));

    let first_prekey = bundle.signed_prekey_public.clone();
    core.rotate_prekey().unwrap();
    assert_ne!(core.export_public_bundle().unwrap().signed_prekey_public, first_prekey);
    assert_eq!(core.key_manager().old_prekeys_count(), 1);
    core.key_manager_mut().rotate_signed_prekey().unwrap();
    assert_eq!(core.key_manager().old_prekeys_count(), 2);

    let signature = core.sign_data(b"data").unwrap();
    assert_eq!(Suite::verify(&bundle.verifying_key, b"data", &signature), Ok(()));

    let identity = Suite::generate_kem_keys().unwrap();
    let session = construct_core::crypto::double_ratchet::DoubleRatchetSession::<Suite>::new_x3dh_session(
        1,
        &[0u8; 32],
        &identity.1,
        &identity.0,
        "bob".to_string(),
    )
    .unwrap();
    core.session_manager_mut().add_session("bob".to_string(), session).unwrap();
    assert!(core.has_session("bob"));
    assert_eq!(core.active_sessions_count(), 1);
    core.cleanup_old_sessions(0);
    assert_eq!(core.active_sessions_count(), 0);
}

#[test]
fn cores_exchange_messages() {
    let mut alice = CryptoCore::<Suite>::new().unwrap();
    let mut bob = CryptoCore::<Suite>::new().unwrap();
    // The cores' clients are paired by hand: they share an identity key.
    let (paired_alice, paired_bob) = paired_clients();
    *alice.client_mut() = paired_alice;
    *bob.client_mut() = paired_bob;
    let alice_bundle = get_registration_bundle(alice.client()).unwrap();
    let bob_bundle = get_registration_bundle(bob.client()).unwrap();

    let alice_session = alice.init_session("bob", &bob_bundle).unwrap();
    let hello = alice.encrypt_message(&alice_session, "hello").unwrap();
    let bob_session = bob.init_receiving_session("alice", &alice_bundle, &hello).unwrap();
    assert_eq!(bob.decrypt_message(&bob_session, &hello).unwrap(), "hello");
    let world = bob.encrypt_message(&bob_session, "world").unwrap();
    assert_eq!(alice.decrypt_message(&alice_session, &world).unwrap(), "world");
    assert_eq!(alice.encrypt_message("nope", "x").err(), Some(CryptoError::SessionNotFound));
    assert_eq!(alice.decrypt_message("nope", &world).err(), Some(CryptoError::SessionNotFound));
}

#[test]
fn ui_state_shows_and_clears() {
    let mut ui = UiState::new();
    assert!(!ui.is_loading);
    assert!(ui.error_message.is_none());
    assert!(ui.notification.is_none());
    ui.set_loading(true);
    ui.set_error("broken".to_string());
    ui.set_notification("news".to_string());
    assert!(ui.is_loading);
    assert_eq!(ui.error_message.as_deref(), Some("broken"));
    assert_eq!(ui.notification.as_deref(), Some("news"));
    ui.clear_error();
    assert!(ui.error_message.is_none());
    assert_eq!(ui.notification.as_deref(), Some("news"));
    ui.clear_notification();
    ui.set_loading(false);
    assert!(ui.notification.is_none());
    assert!(!ui.is_loading);
    assert!(!UiState::default().is_loading);
    assert_eq!(ConnectionState::Disconnected, ConnectionState::Disconnected);
    assert_ne!(ConnectionState::Connected, ConnectionState::Connecting);
}

#[test]
fn contact_and_conversation_lists_start_empty() {
    let _contacts = ContactsState::new();
    let _more_contacts = ContactsState::default();
    let _conversations = ConversationsState::new();
    let _more_conversations = ConversationsState::default();
    let contact = StoredContact { id: "1".to_string(), username: "bob".to_string(), public_key: vec![1] };
    assert_eq!(contact.clone().username, "bob");
    let message = StoredMessage {
        id: "m".to_string(),
        from: "a".to_string(),
        to: "b".to_string(),
        content: vec![1, 2],
        timestamp: 5,
    };
    assert_eq!(message.clone().content, vec![1, 2]);
}

#[test]
fn secrets_are_wiped() {
    let mut secret = construct_core::utils::secret::SecretBytes::new(vec![1, 2, 3]);
    assert_eq!(secret.as_vec(), &vec![1, 2, 3]);
    assert_eq!(secret.to_vec(), vec![1, 2, 3]);
    let copy = secret.clone();
    secret.clear();
    assert!(secret.as_vec().is_empty());
    assert_eq!(copy.to_vec(), vec![1, 2, 3]);
}

#[test]
fn bundle_suite_is_read_as_a_decimal_number() {
    let with_suite = |suite: &str| {
        format!(
            "{{\"identity_public\":\"\",\"signed_prekey_public\":\"\",\"signature\":\"\",\"verifying_key\":\"\",\"suite_id\":\"{}\"}}",
            suite
        )
    };
    let read = |suite: &str| deserialize_key_bundle(&with_suite(suite)).map(|bundle| bundle.suite_id);
    assert_eq!(read("0"), Ok(0));
    assert_eq!(read("7"), Ok(7));
    assert_eq!(read("007"), Ok(7));
    assert_eq!(read("+1"), Ok(1));
    assert_eq!(read("65535"), Ok(65535));
    assert_eq!(read("0065535"), Ok(65535));
    assert_eq!(read(""), Err(CryptoError::Serialization));
    assert_eq!(read("+"), Err(CryptoError::Serialization));
    assert_eq!(read("65536"), Err(CryptoError::Serialization));
    assert_eq!(read("1 "), Err(CryptoError::Serialization));
    assert_eq!(read("0x1"), Err(CryptoError::Serialization));
    assert_eq!(read("++1"), Err(CryptoError::Serialization));
}

#[test]
fn bundle_suite_is_written_without_sign_or_leading_zero() {
    let mut bundle = sample_bundle();
    for (suite, text) in [(0u16, "0"), (9, "9"), (10, "10"), (256, "256"), (40001, "40001"), (65535, "65535")] {
        bundle.suite_id = suite;
        assert_eq!(bundle_to_text(&bundle).unwrap().suite_id, text);
        let json = serialize_key_bundle(&bundle).unwrap();
        assert_eq!(deserialize_key_bundle(&json).unwrap().suite_id, suite);
    }
}

#[test]
fn key_bundle_of_any_keys_is_serialized() {
    let bundle = KeyBundle {
        identity_public: Vec::new(),
        signed_prekey_public: vec![0xff; 1000],
        signature: vec![0x00, 0x10, 0x83],
        verifying_key: vec![b'"', b'\\', 0],
        suite_id: 65535,
    };
    let json = serialize_key_bundle(&bundle).unwrap();
    assert!(same_bundle(&deserialize_key_bundle(&json).unwrap(), &bundle));
}

#[test]
fn plaintext_that_is_no_text_is_refused_after_decryption() {
    let (mut alice, mut bob) = paired_clients();
    let alice_bundle = get_registration_bundle(&alice).unwrap();
    let bob_bundle = get_registration_bundle(&bob).unwrap();
    let alice_session = init_session(&mut alice, "bob", &bob_bundle).unwrap();
    let hello = encrypt_message(&mut alice, &alice_session, "hello").unwrap();
    let bob_session = init_receiving_session(&mut bob, "alice", &alice_bundle, &hello).unwrap();
    assert_eq!(decrypt_message(&mut bob, &bob_session, hello).unwrap(), "hello");

    let raw = alice.encrypt_ratchet_message(&alice_session, &[0xff, 0xfe, 0x00]).unwrap();
    let carried = EncryptedMessage::for_session(bob_session.clone(), raw.clone());
    assert_eq!(decrypt_message(&mut bob, &bob_session, carried).err(), Some(CryptoError::Serialization));
    // The session has decrypted the message: its key is gone.
    assert_eq!(bob.decrypt_ratchet_message(&bob_session, &raw).err(), Some(CryptoError::MessageKeyNotFound));

    // Any other failure leaves the session as it was.
    let next = alice.encrypt_ratchet_message(&alice_session, b"next").unwrap();
    let mut tampered = EncryptedMessage::for_session(bob_session.clone(), next.clone());
    tampered.ciphertext[0] ^= 1;
    assert_eq!(decrypt_message(&mut bob, &bob_session, tampered).err(), Some(CryptoError::AeadDecryption));
    let carried = EncryptedMessage::for_session(bob_session.clone(), next);
    assert_eq!(decrypt_message(&mut bob, &bob_session, carried).unwrap(), "next");
}

#[test]
fn client_refuses_keys_that_are_no_pair() {
    let identity = Suite::generate_kem_keys().unwrap();
    let prekey = Suite::generate_kem_keys().unwrap();
    let signing = Suite::generate_signature_keys().unwrap();
    let stranger = Suite::generate_kem_keys().unwrap();
    let other_signer = Suite::generate_signature_keys().unwrap();
    let refused = |identity: &(Vec<u8>, Vec<u8>), prekey: &(Vec<u8>, Vec<u8>), signing: &(Vec<u8>, Vec<u8>)| {
        ClientCrypto::<Suite>::new_with_keys(identity.clone(), prekey.clone(), signing.clone()).err()
    };
    assert_eq!(refused(&(identity.0.clone(), stranger.1.clone()), &prekey, &signing), Some(CryptoError::InvalidInput));
    assert_eq!(refused(&identity, &(prekey.0.clone(), stranger.1.clone()), &signing), Some(CryptoError::InvalidInput));
    assert_eq!(
        refused(&identity, &prekey, &(signing.0.clone(), other_signer.1.clone())),
        Some(CryptoError::InvalidInput)
    );
    assert_eq!(refused(&(vec![1u8; 31], identity.1.clone()), &prekey, &signing), Some(CryptoError::InvalidInput));
    assert_eq!(refused(&identity, &prekey, &signing), None);

    let client = ClientCrypto::<Suite>::new_with_keys(identity.clone(), prekey.clone(), signing.clone()).unwrap();
    let bundle = client.get_registration_bundle();
    assert_eq!(bundle.identity_public, identity.1);
    assert_eq!(bundle.signed_prekey_public, prekey.1);
    assert_eq!(bundle.verifying_key, signing.1);
    assert_eq!(bundle.identity_public.len(), 32);
    assert_eq!(bundle.signed_prekey_public.len(), 32);
    assert_eq!(bundle.signature.len(), 64);
    assert_eq!(bundle.verifying_key.len(), 32);
    assert_eq!(Suite::verify(&bundle.verifying_key, &bundle.signed_prekey_public, &bundle.signature), Ok(()));
}
