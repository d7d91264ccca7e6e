use construct_core::crypto::classic_suite::ClassicSuiteProvider;
use construct_core::crypto::double_ratchet::DoubleRatchetSession;
use construct_core::crypto::keys::{KeyManager, PREKEY_RETENTION_SECONDS};
use construct_core::crypto::session::{SessionManager, SessionMetadata, DEFAULT_MAX_SESSIONS};
use construct_core::crypto::CryptoProvider;
use construct_core::error::CryptoError;
use x25519_dalek::{PublicKey, StaticSecret};

type Suite = ClassicSuiteProvider;

fn session_for(contact: &str) -> DoubleRatchetSession<ClassicSuiteProvider> {
    let identity = Suite::generate_kem_keys().unwrap();
    DoubleRatchetSession::<ClassicSuiteProvider>::new_x3dh_session(
        1,
        &[0u8; 32],
        &identity.1,
        &identity.0,
        contact.to_string(),
    )
    .unwrap()
}

#[test]
fn test_session_manager_add_get() {
    let mut manager = SessionManager::<ClassicSuiteProvider>::new();

    let identity_secret = StaticSecret::random_from_rng(rand::rngs::OsRng);
    let identity_public = PublicKey::from(&identity_secret);
    let root_key = [0u8; 32];

    let session = DoubleRatchetSession::<ClassicSuiteProvider>::new_x3dh_session(
        1,
        &root_key,
        &identity_public.to_bytes().to_vec(),
        &identity_secret.to_bytes().to_vec(),
        "contact1".to_string(),
    )
    .unwrap();

    manager.add_session("contact1".to_string(), session).unwrap();

    assert!(manager.has_session("contact1"));
    assert_eq!(manager.session_count(), 1);
}

#[test]
fn test_session_manager_remove() {
    let mut manager = SessionManager::<ClassicSuiteProvider>::new();

    let identity_secret = StaticSecret::random_from_rng(rand::rngs::OsRng);
    let identity_public = PublicKey::from(&identity_secret);
    let root_key = [0u8; 32];

    let session = DoubleRatchetSession::<ClassicSuiteProvider>::new_x3dh_session(
        1,
        &root_key,
        &identity_public.to_bytes().to_vec(),
        &identity_secret.to_bytes().to_vec(),
        "contact1".to_string(),
    )
    .unwrap();

    manager.add_session("contact1".to_string(), session).unwrap();
    assert!(manager.has_session("contact1"));

    manager.remove_session("contact1");
    assert!(!manager.has_session("contact1"));
}

#[test]
fn test_session_manager_metadata() {
    let mut manager = SessionManager::<ClassicSuiteProvider>::new();

    let identity_secret = StaticSecret::random_from_rng(rand::rngs::OsRng);
    let identity_public = PublicKey::from(&identity_secret);
    let root_key = [0u8; 32];

    let session = DoubleRatchetSession::<ClassicSuiteProvider>::new_x3dh_session(
        1,
        &root_key,
        &identity_public.to_bytes().to_vec(),
        &identity_secret.to_bytes().to_vec(),
        "contact1".to_string(),
    )
    .unwrap();

    manager.add_session("contact1".to_string(), session).unwrap();

    let metadata = manager.get_metadata("contact1").unwrap();
    assert_eq!(metadata.contact_id, "contact1");
    assert_eq!(metadata.message_count, 0);
}

#[test]
fn session_manager_starts_empty() {
    let manager = SessionManager::<Suite>::new();
    assert_eq!(manager.session_count(), 0);
    assert_eq!(manager.max_sessions(), 100);
    assert_eq!(DEFAULT_MAX_SESSIONS, 100);
    assert!(!manager.has_session("anyone"));
    assert!(manager.get_session("anyone").is_none());
    assert!(manager.get_metadata("anyone").is_none());
    assert!(manager.get_active_contacts().is_empty());
    assert_eq!(SessionManager::<Suite>::with_capacity(7).max_sessions(), 7);
    assert_eq!(SessionManager::<Suite>::default().max_sessions(), 100);
}

#[test]
fn session_metadata_counts_uses() {
    let mut metadata = SessionMetadata::new_at("sid".to_string(), "cid".to_string(), 50);
    assert_eq!(metadata.session_id, "sid");
    assert_eq!(metadata.contact_id, "cid");
    assert_eq!(metadata.created_at, 50);
    assert_eq!(metadata.last_used, 50);
    assert_eq!(metadata.message_count, 0);
    metadata.update_last_used_at(60);
    metadata.update_last_used_at(70);
    assert_eq!(metadata.created_at, 50);
    assert_eq!(metadata.last_used, 70);
    assert_eq!(metadata.message_count, 2);
    metadata.message_count = u64::MAX;
    metadata.update_last_used_at(80);
    assert_eq!(metadata.message_count, u64::MAX);
    assert_eq!(metadata.last_used, 80);

    let fresh = SessionMetadata::new("s".to_string(), "c".to_string());
    assert_eq!(fresh.created_at, fresh.last_used);
    assert!(fresh.created_at > 1_600_000_000);
    let mut touched = fresh;
    touched.update_last_used();
    assert_eq!(touched.message_count, 1);
    assert!(touched.last_used >= touched.created_at);
}

#[test]
fn session_manager_keeps_one_session_for_each_contact() {
    let mut manager = SessionManager::<Suite>::new();
    let first = session_for("carol");
    let first_id = first.session_id().to_string();
    manager.add_session_at("carol".to_string(), first, 10).unwrap();
    let second = session_for("carol");
    let second_id = second.session_id().to_string();
    manager.add_session_at("carol".to_string(), second, 20).unwrap();
    assert_eq!(manager.session_count(), 1);
    assert_eq!(manager.get_session("carol").unwrap().session_id(), second_id);
    assert_ne!(first_id, second_id);
    let metadata = manager.get_metadata("carol").unwrap();
    assert_eq!(metadata.session_id, second_id);
    assert_eq!(metadata.created_at, 20);
}

#[test]
fn session_manager_hands_out_sessions_and_records_it() {
    let mut manager = SessionManager::<Suite>::new();
    manager.add_session_at("carol".to_string(), session_for("carol"), 10).unwrap();
    assert!(manager.get_session_mut_at("dave", 15).is_none());
    {
        let session = manager.get_session_mut_at("carol", 30).unwrap();
        session.encrypt(b"one").unwrap();
        session.encrypt(b"two").unwrap();
    }
    assert_eq!(manager.get_session("carol").unwrap().sending_chain_length(), 2);
    let metadata = manager.get_metadata("carol").unwrap();
    assert_eq!(metadata.last_used, 30);
    assert_eq!(metadata.created_at, 10);
    assert_eq!(metadata.message_count, 1);
    assert!(manager.get_session_mut("carol").is_some());
    assert_eq!(manager.get_metadata("carol").unwrap().message_count, 2);
    // Reading does not count as a use.
    assert!(manager.get_session("carol").is_some());
    assert_eq!(manager.get_metadata("carol").unwrap().message_count, 2);
}

#[test]
fn session_manager_evicts_the_least_recently_used() {
    let mut manager = SessionManager::<Suite>::with_capacity(3);
    manager.add_session_at("a".to_string(), session_for("a"), 10).unwrap();
    manager.add_session_at("b".to_string(), session_for("b"), 20).unwrap();
    manager.add_session_at("c".to_string(), session_for("c"), 30).unwrap();
    assert_eq!(manager.get_active_contacts(), vec!["a".to_string(), "b".to_string(), "c".to_string()]);
    // Using "a" makes "b" the least recently used.
    assert!(manager.get_session_mut_at("a", 40).is_some());
    manager.add_session_at("d".to_string(), session_for("d"), 50).unwrap();
    assert_eq!(manager.session_count(), 3);
    assert!(manager.has_session("a"));
    assert!(!manager.has_session("b"));
    assert!(manager.has_session("c"));
    assert!(manager.has_session("d"));
    assert_eq!(manager.get_active_contacts(), vec!["a".to_string(), "c".to_string(), "d".to_string()]);

    manager.cleanup_old_sessions().unwrap();
    assert!(!manager.has_session("c"));
    assert_eq!(manager.session_count(), 2);
}

#[test]
fn session_manager_evicts_the_first_of_equally_old_sessions() {
    let mut manager = SessionManager::<Suite>::with_capacity(2);
    manager.add_session_at("a".to_string(), session_for("a"), 10).unwrap();
    manager.add_session_at("b".to_string(), session_for("b"), 10).unwrap();
    manager.add_session_at("c".to_string(), session_for("c"), 10).unwrap();
    assert_eq!(manager.get_active_contacts(), vec!["b".to_string(), "c".to_string()]);
}

#[test]
fn session_manager_without_capacity_holds_one_session() {
    let mut manager = SessionManager::<Suite>::with_capacity(0);
    manager.add_session("a".to_string(), session_for("a")).unwrap();
    assert_eq!(manager.session_count(), 1);
    manager.add_session("b".to_string(), session_for("b")).unwrap();
    assert_eq!(manager.session_count(), 1);
    assert!(manager.has_session("b"));
    let mut empty = SessionManager::<Suite>::new();
    assert!(empty.cleanup_old_sessions().is_ok());
    assert_eq!(empty.session_count(), 0);
}

#[test]
fn session_manager_drops_sessions_by_age() {
    let mut manager = SessionManager::<Suite>::new();
    manager.add_session_at("old".to_string(), session_for("old"), 100).unwrap();
    manager.add_session_at("edge".to_string(), session_for("edge"), 200).unwrap();
    manager.add_session_at("new".to_string(), session_for("new"), 201).unwrap();
    // At 1200 with an age of 1000: used at 200 is exactly too old.
    manager.cleanup_sessions_older_than_at(1000, 1200);
    assert_eq!(manager.get_active_contacts(), vec!["new".to_string()]);
    manager.cleanup_sessions_older_than_at(1000, i64::MAX);
    assert_eq!(manager.session_count(), 0);

    manager.add_session("now".to_string(), session_for("now")).unwrap();
    manager.cleanup_sessions_older_than(3600);
    assert_eq!(manager.session_count(), 1);
    manager.cleanup_sessions_older_than(0);
    assert_eq!(manager.session_count(), 0);
}

#[test]
fn session_manager_remove_and_clear() {
    let mut manager = SessionManager::<Suite>::new();
    manager.add_session("a".to_string(), session_for("a")).unwrap();
    manager.add_session("b".to_string(), session_for("b")).unwrap();
    assert!(manager.remove_session("zzz").is_none());
    let removed = manager.remove_session("a").unwrap();
    assert_eq!(removed.contact_id(), "a");
    assert_eq!(manager.session_count(), 1);
    manager.clear_all();
    assert_eq!(manager.session_count(), 0);
    assert!(!manager.has_session("b"));
}

#[test]
fn session_manager_stores_and_restores_sessions() {
    let mut manager = SessionManager::<Suite>::new();
    let mut session = session_for("carol");
    session.encrypt(b"one").unwrap();
    let snapshot = session.to_serializable();
    manager.add_session("carol".to_string(), session).unwrap();
    assert_eq!(manager.serialize_session("nobody").err(), Some(CryptoError::SessionNotFound));

    let bytes = manager.serialize_session("carol").unwrap();
    // The stored form is what bincode makes of the fields in their order.
    let fields: (
        u16,
        Vec<u8>,
        Vec<u8>,
        u32,
        Vec<u8>,
        u32,
        Option<Vec<u8>>,
        Vec<u8>,
        Option<Vec<u8>>,
        u32,
        Vec<(u32, Vec<u8>)>,
        Vec<(u32, u64)>,
        String,
        String,
    ) = bincode::deserialize(&bytes).unwrap();
    assert_eq!(fields.0, 1);
    assert_eq!(fields.1, snapshot.root_key);
    assert_eq!(fields.2, snapshot.sending_chain_key);
    assert_eq!(fields.3, 1);
    assert_eq!(fields.6, snapshot.dh_ratchet_private);
    assert_eq!(fields.12, snapshot.session_id);
    assert_eq!(fields.13, "carol");
    assert_ne!(bytes, snapshot.root_key);

    let mut other = SessionManager::<Suite>::new();
    other.deserialize_session_at("carol2".to_string(), &bytes, 99).unwrap();
    let restored = other.get_session("carol2").unwrap().to_serializable();
    assert_eq!(restored.root_key, snapshot.root_key);
    assert_eq!(restored.sending_chain_key, snapshot.sending_chain_key);
    assert_eq!(restored.sending_chain_length, 1);
    assert_eq!(restored.dh_ratchet_private, snapshot.dh_ratchet_private);
    assert_eq!(restored.session_id, snapshot.session_id);
    assert_eq!(restored.contact_id, "carol");
    let metadata = other.get_metadata("carol2").unwrap();
    assert_eq!(metadata.contact_id, "carol2");
    assert_eq!(metadata.session_id, snapshot.session_id);
    assert_eq!(metadata.created_at, 99);

    assert_eq!(other.deserialize_session("x".to_string(), &bytes[..10]).err(), Some(CryptoError::Serialization));
    assert_eq!(other.deserialize_session("x".to_string(), &[]).err(), Some(CryptoError::Serialization));
    let mut other_suite = bytes.clone();
    other_suite[0] = 2;
    assert_eq!(other.deserialize_session("x".to_string(), &other_suite).err(), Some(CryptoError::SuiteMismatch));
    assert_eq!(other.session_count(), 1);
}

#[test]
fn session_manager_exports_and_imports_all() {
    let mut manager = SessionManager::<Suite>::new();
    manager.add_session("a".to_string(), session_for("a")).unwrap();
    manager.add_session("b".to_string(), session_for("b")).unwrap();
    let exported = manager.export_all_sessions().unwrap();
    assert_eq!(exported.len(), 2);
    assert_eq!(exported[0].0, "a");
    assert_eq!(exported[1].0, "b");
    assert_eq!(exported[0].1, manager.serialize_session("a").unwrap());

    let mut other = SessionManager::<Suite>::new();
    other.import_all_sessions(exported.clone()).unwrap();
    assert_eq!(other.get_active_contacts(), vec!["a".to_string(), "b".to_string()]);
    assert_eq!(
        other.get_session("b").unwrap().session_id(),
        manager.get_session("b").unwrap().session_id()
    );

    // Import stops at the first entry that does not restore.
    let mut broken = exported.clone();
    broken.insert(1, ("bad".to_string(), vec![1, 2, 3]));
    let mut third = SessionManager::<Suite>::new();
    assert_eq!(third.import_all_sessions_at(broken, 5).err(), Some(CryptoError::Serialization));
    assert_eq!(third.get_active_contacts(), vec!["a".to_string()]);
}

#[test]
fn key_manager_is_unusable_before_initialization() {
    let mut manager = KeyManager::<Suite>::new();
    assert!(!manager.is_initialized());
    assert_eq!(manager.identity_public_key().err(), Some(CryptoError::Uninitialized));
    assert_eq!(manager.identity_secret_key().err(), Some(CryptoError::Uninitialized));
    assert_eq!(manager.verifying_key().err(), Some(CryptoError::Uninitialized));
    assert_eq!(manager.signing_secret_key().err(), Some(CryptoError::Uninitialized));
    assert_eq!(manager.current_signed_prekey().err(), Some(CryptoError::Uninitialized));
    assert_eq!(manager.export_registration_bundle().err(), Some(CryptoError::Uninitialized));
    assert_eq!(manager.export_public_bundle().err(), Some(CryptoError::Uninitialized));
    assert_eq!(manager.sign(b"data").err(), Some(CryptoError::Uninitialized));
    assert_eq!(manager.rotate_signed_prekey().err(), Some(CryptoError::Uninitialized));
    assert_eq!(
        manager.rotate_signed_prekey_with_keys(Suite::generate_kem_keys().unwrap(), 0).err(),
        Some(CryptoError::Uninitialized)
    );
    assert!(manager.get_prekey(1).is_none());
    assert_eq!(manager.old_prekeys_count(), 0);
    assert!(!KeyManager::<Suite>::default().is_initialized());
}

#[test]
fn key_manager_initializes_with_the_first_prekey() {
    let mut manager = KeyManager::<Suite>::new();
    manager.initialize().unwrap();
    assert!(manager.is_initialized());
    let bundle = manager.export_registration_bundle().unwrap();
    assert_eq!(bundle.identity_public.len(), 32);
    assert_eq!(bundle.signed_prekey_public.len(), 32);
    assert_eq!(bundle.signature.len(), 64);
    assert_eq!(bundle.verifying_key.len(), 32);
    assert_eq!(bundle.suite_id, 1);
    assert_eq!(Suite::verify(&bundle.verifying_key, &bundle.signed_prekey_public, &bundle.signature), Ok(()));
    assert_eq!(&bundle.identity_public, manager.identity_public_key().unwrap());
    assert_eq!(&bundle.verifying_key, manager.verifying_key().unwrap());
    assert_eq!(
        &Suite::from_private_key_to_public_key(manager.identity_secret_key().unwrap()).unwrap(),
        manager.identity_public_key().unwrap()
    );

    let prekey = manager.current_signed_prekey().unwrap();
    assert_eq!(prekey.key_id, 1);
    assert_eq!(prekey.key_pair.1, bundle.signed_prekey_public);
    assert!(prekey.created_at > 1_600_000_000);
    assert_eq!(manager.old_prekeys_count(), 0);

    let public = manager.export_public_bundle().unwrap();
    assert_eq!(public.identity_public, bundle.identity_public);
    assert_eq!(public.signed_prekey_public, bundle.signed_prekey_public);
    assert_eq!(public.signature, bundle.signature);
    assert_eq!(public.verifying_key, bundle.verifying_key);
    assert_eq!(public.suite_id, 1);

    let signature = manager.sign(b"data").unwrap();
    assert_eq!(Suite::verify(manager.verifying_key().unwrap(), b"data", &signature), Ok(()));
    assert_eq!(signature, Suite::sign(manager.signing_secret_key().unwrap(), b"data").unwrap());
}

#[test]
fn key_manager_rotates_prekeys() {
    let mut manager = KeyManager::<Suite>::new();
    let identity = Suite::generate_kem_keys().unwrap();
    let signing = Suite::generate_signature_keys().unwrap();
    let first = Suite::generate_kem_keys().unwrap();
    manager.initialize_with_keys(identity.clone(), signing.clone(), first.clone(), 1000).unwrap();
    assert_eq!(manager.current_signed_prekey().unwrap().key_id, 1);
    assert_eq!(manager.current_signed_prekey().unwrap().created_at, 1000);
    assert_eq!(manager.current_signed_prekey().unwrap().key_pair, first);
    assert_eq!(manager.identity_secret_key().unwrap(), &identity.0);
    assert_eq!(manager.signing_secret_key().unwrap(), &signing.0);

    let second = Suite::generate_kem_keys().unwrap();
    manager.rotate_signed_prekey_with_keys(second.clone(), 2000).unwrap();
    let current = manager.current_signed_prekey().unwrap();
    assert_eq!(current.key_id, 2);
    assert_eq!(current.created_at, 2000);
    assert_eq!(current.key_pair, second);
    assert_eq!(current.signature, Suite::sign(&signing.0, &second.1).unwrap());
    assert_eq!(manager.old_prekeys_count(), 1);
    assert_eq!(manager.get_prekey(1).unwrap().key_pair, first);
    assert_eq!(manager.get_prekey(2).unwrap().key_pair, second);
    assert!(manager.get_prekey(3).is_none());
    assert!(manager.get_prekey(0).is_none());
    assert_eq!(manager.export_public_bundle().unwrap().signed_prekey_public, second.1);

    manager.rotate_signed_prekey().unwrap();
    assert_eq!(manager.current_signed_prekey().unwrap().key_id, 3);
}

#[test]
fn key_manager_keeps_replaced_prekeys_for_thirty_days() {
    assert_eq!(PREKEY_RETENTION_SECONDS, 30 * 24 * 3600);
    let mut manager = KeyManager::<Suite>::new();
    let day = 24 * 3600;
    manager
        .initialize_with_keys(
            Suite::generate_kem_keys().unwrap(),
            Suite::generate_signature_keys().unwrap(),
            Suite::generate_kem_keys().unwrap(),
            0,
        )
        .unwrap();
    manager.rotate_signed_prekey_with_keys(Suite::generate_kem_keys().unwrap(), 10 * day).unwrap();
    manager.rotate_signed_prekey_with_keys(Suite::generate_kem_keys().unwrap(), 20 * day).unwrap();
    assert_eq!(manager.old_prekeys_count(), 2);
    // On day 30 the prekey of day 0 is exactly thirty days old and goes.
    manager.rotate_signed_prekey_with_keys(Suite::generate_kem_keys().unwrap(), 30 * day).unwrap();
    assert_eq!(manager.old_prekeys_count(), 2);
    assert!(manager.get_prekey(1).is_none());
    assert!(manager.get_prekey(2).is_some());
    assert!(manager.get_prekey(3).is_some());
    assert_eq!(manager.current_signed_prekey().unwrap().key_id, 4);
    // One second earlier it would have stayed.
    manager.cleanup_old_prekeys_at(20 * day + 1, 40 * day);
    assert_eq!(manager.old_prekeys_count(), 1);
    assert!(manager.get_prekey(3).is_some());
    manager.cleanup_old_prekeys_at(20 * day, 40 * day);
    assert_eq!(manager.old_prekeys_count(), 0);
    assert!(manager.get_prekey(4).is_some());
    manager.cleanup_old_prekeys(1);
    assert_eq!(manager.old_prekeys_count(), 0);
}

#[test]
fn key_manager_rotation_failure_changes_nothing() {
    let mut manager = KeyManager::<Suite>::new();
    let bad_signing = (vec![0u8; 5], vec![0u8; 32]);
    assert_eq!(
        manager
            .initialize_with_keys(
                Suite::generate_kem_keys().unwrap(),
                bad_signing,
                Suite::generate_kem_keys().unwrap(),
                0
            )
            .err(),
        Some(CryptoError::InvalidInput)
    );
    assert!(!manager.is_initialized());
    assert_eq!(manager.identity_public_key().err(), Some(CryptoError::Uninitialized));
}

#[test]
fn key_manager_refuses_keys_that_are_no_pair() {
    let identity = Suite::generate_kem_keys().unwrap();
    let signing = Suite::generate_signature_keys().unwrap();
    let prekey = Suite::generate_kem_keys().unwrap();
    let stranger = Suite::generate_kem_keys().unwrap();
    let other_signer = Suite::generate_signature_keys().unwrap();

    let mut manager = KeyManager::<Suite>::new();
    let mixed_identity = (identity.0.clone(), stranger.1.clone());
    assert_eq!(
        manager.initialize_with_keys(mixed_identity, signing.clone(), prekey.clone(), 5).err(),
        Some(CryptoError::InvalidInput)
    );
    assert!(!manager.is_initialized());
    let mixed_signing = (signing.0.clone(), other_signer.1.clone());
    assert_eq!(
        manager.initialize_with_keys(identity.clone(), mixed_signing, prekey.clone(), 5).err(),
        Some(CryptoError::InvalidInput)
    );
    assert!(!manager.is_initialized());
    let mixed_prekey = (prekey.0.clone(), stranger.1.clone());
    assert_eq!(
        manager.initialize_with_keys(identity.clone(), signing.clone(), mixed_prekey.clone(), 5).err(),
        Some(CryptoError::InvalidInput)
    );
    assert!(!manager.is_initialized());

    manager.initialize_with_keys(identity, signing, prekey.clone(), 5).unwrap();
    assert_eq!(manager.rotate_signed_prekey_with_keys(mixed_prekey, 6).err(), Some(CryptoError::InvalidInput));
    assert_eq!(manager.current_signed_prekey().unwrap().key_id, 1);
    assert_eq!(manager.current_signed_prekey().unwrap().key_pair, prekey);
    assert_eq!(manager.old_prekeys_count(), 0);
}

#[test]
fn key_manager_finds_each_kept_prekey_by_its_number() {
    let mut manager = KeyManager::<Suite>::new();
    let mut pairs = vec![Suite::generate_kem_keys().unwrap()];
    manager
        .initialize_with_keys(
            Suite::generate_kem_keys().unwrap(),
            Suite::generate_signature_keys().unwrap(),
            pairs[0].clone(),
            100,
        )
        .unwrap();
    for step in 1..6i64 {
        let pair = Suite::generate_kem_keys().unwrap();
        pairs.push(pair.clone());
        manager.rotate_signed_prekey_with_keys(pair, 100 + step).unwrap();
    }
    assert_eq!(manager.old_prekeys_count(), 5);
    for (index, pair) in pairs.iter().enumerate() {
        let found = manager.get_prekey(index as u32 + 1).unwrap();
        assert_eq!(found.key_id, index as u32 + 1);
        assert_eq!(&found.key_pair, pair);
        assert_eq!(found.created_at, 100 + index as i64);
    }
    assert!(manager.get_prekey(7).is_none());
    // Only the prekeys made after second 102 are younger than 50 at 153.
    manager.cleanup_old_prekeys_at(50, 153);
    assert_eq!(manager.old_prekeys_count(), 1);
    assert!(manager.get_prekey(4).is_none());
    assert_eq!(&manager.get_prekey(5).unwrap().key_pair, &pairs[4]);
    assert_eq!(&manager.get_prekey(6).unwrap().key_pair, &pairs[5]);
}

#[test]
fn stored_session_keeps_its_skipped_keys() {
    let identity = Suite::generate_kem_keys().unwrap();
    let seed = [7u8; 32];
    let mut alice =
        DoubleRatchetSession::<Suite>::new_x3dh_session(1, &seed, &identity.1, &identity.0, "bob".to_string()).unwrap();
    let first = alice.encrypt(b"one").unwrap();
    let second = alice.encrypt(b"two").unwrap();
    let third = alice.encrypt(b"three").unwrap();
    let fourth = alice.encrypt(b"four").unwrap();
    let mut bob =
        DoubleRatchetSession::<Suite>::new_receiving_session(1, &seed, &identity.0, &first, "alice".to_string())
            .unwrap();
    assert_eq!(bob.decrypt(&fourth).unwrap(), b"four".to_vec());
    assert_eq!(bob.skipped_key_count(), 3);

    let mut manager = SessionManager::<Suite>::new();
    manager.add_session("alice".to_string(), bob).unwrap();
    let bytes = manager.serialize_session("alice").unwrap();
    let mut other = SessionManager::<Suite>::new();
    other.deserialize_session("alice".to_string(), &bytes).unwrap();
    let restored = other.get_session_mut("alice").unwrap();
    assert_eq!(restored.skipped_key_count(), 3);
    assert_eq!(restored.decrypt(&second).unwrap(), b"two".to_vec());
    assert_eq!(restored.decrypt(&first).unwrap(), b"one".to_vec());
    assert_eq!(restored.decrypt(&third).unwrap(), b"three".to_vec());
    assert_eq!(restored.skipped_key_count(), 0);
    // What was stored is read back the same, whatever comes behind it.
    let mut longer = bytes.clone();
    longer.extend_from_slice(&[1, 2, 3]);
    assert!(other.deserialize_session("alice".to_string(), &longer).is_ok());
    assert_eq!(other.get_session("alice").unwrap().skipped_key_count(), 3);
    assert_eq!(other.deserialize_session("alice".to_string(), &bytes[..bytes.len() - 1]).err(), Some(CryptoError::Serialization));
}
