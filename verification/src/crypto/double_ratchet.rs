//! The Double Ratchet session: one peer association that encrypts and
//! decrypts a stream of messages, tolerating loss and reordering.
//!
//! The session is specified as a state machine over [`SessionState`]. Each
//! operation has a specification function that gives the next state and the
//! result, and the executable method is proved to compute exactly that. An
//! operation that fails leaves the state as it was.

use vstd::prelude::*;
use vstd::slice::slice_to_vec;
use vstd::string::StringSliceAdditionalSpecFns;
use core::marker::PhantomData;
use std::collections::HashMap;
use crate::crypto::primitives::{os_random_bytes, uuid_v4_from_bytes, uuid_v4_text};
use crate::crypto::provider::{
    secret_hkdf_derive_key,
    secret_kdf_ck,
    secret_kdf_rk,
    secret_kem_decapsulate,
    CryptoProvider,
};
use crate::error::CryptoError;
use crate::utils::bytes::{bytes_equal, clone_optional_bytes, optional_bytes_view, to_array_32};
use crate::utils::secret::{
    optional_secret_to_vec,
    optional_secret_view,
    wipe,
    SecretBytes,
};
use crate::utils::time::now;
use crate::SuiteID;

verus! {

broadcast use vstd::std_specs::hash::group_hash_axioms;

/// The most message keys a session keeps for messages that did not arrive.
pub const MAX_SKIPPED_MESSAGES: u32 = 1000;

/// The age, in seconds, from which a skipped message key may be evicted.
pub const MAX_SKIPPED_MESSAGE_AGE_SECONDS: i64 = 604800;

/// Length of the nonce a message carries.
pub const MESSAGE_NONCE_LEN: usize = 12;

/// Length of the ratchet public key a message carries.
pub const RATCHET_PUBLIC_KEY_LEN: usize = 32;

/// Length of the initial root key.
pub const INITIAL_ROOT_KEY_LEN: usize = 32;

/// What an encrypted message holds, as plain values.
pub struct MessageView {
    pub dh_public_key: Seq<u8>,
    pub message_number: u32,
    pub ciphertext: Seq<u8>,
    pub nonce: Seq<u8>,
    pub previous_chain_length: u32,
    pub suite_id: SuiteID,
}

/// The unit a session emits and consumes.
#[derive(Debug, Clone)]
pub struct EncryptedRatchetMessage {
    /// The sender's ratchet public key when it encrypted.
    pub dh_public_key: [u8; 32],
    /// The index of the message in the sender's current chain.
    pub message_number: u32,
    /// The AEAD ciphertext, tag included.
    pub ciphertext: Vec<u8>,
    /// The AEAD nonce.
    pub nonce: Vec<u8>,
    /// How many messages the sender's previous chain held.
    pub previous_chain_length: u32,
    /// The suite the message was made with.
    pub suite_id: SuiteID,
}

impl View for EncryptedRatchetMessage {
    type V = MessageView;

    open spec fn view(&self) -> MessageView {
        MessageView {
            dh_public_key: self.dh_public_key@,
            message_number: self.message_number,
            ciphertext: self.ciphertext@,
            nonce: self.nonce@,
            previous_chain_length: self.previous_chain_length,
            suite_id: self.suite_id,
        }
    }
}

/// A stored message key, as plain values.
pub struct SkippedKeyView {
    pub key: Seq<u8>,
    pub stored_at: u64,
}

/// The key of a message that was passed over because a later one of the
/// same chain arrived first.
#[derive(Debug)]
pub struct SkippedKey {
    /// The message key.
    pub key: Vec<u8>,
    /// When the key was stored, in seconds since the epoch.
    pub stored_at: u64,
}

impl Drop for SkippedKey {
    fn drop(&mut self)
        opens_invariants none
        no_unwind
    {
        wipe(&mut self.key);
    }
}

impl View for SkippedKey {
    type V = SkippedKeyView;

    open spec fn view(&self) -> SkippedKeyView {
        SkippedKeyView { key: self.key@, stored_at: self.stored_at }
    }
}

/// The keys of a list, in their order.
pub open spec fn skipped_view(keys: Seq<SkippedKey>) -> Seq<SkippedKeyView> {
    keys.map_values(|k: SkippedKey| k@)
}

/// The stored keys of a table, by the numbers of their messages.
pub open spec fn table_view(table: Map<u32, SkippedKey>) -> Map<u32, SkippedKeyView> {
    table.map_values(|k: SkippedKey| k@)
}

/// The durable state of a session.
pub struct SessionState {
    /// The suite, fixed when the session is made.
    pub suite_id: SuiteID,
    /// The root key, advanced by DH-ratchet steps only.
    pub root_key: Seq<u8>,
    pub sending_chain_key: Seq<u8>,
    /// How many messages the current sending chain has produced.
    pub sending_chain_length: u32,
    pub receiving_chain_key: Seq<u8>,
    /// The number of the next message expected on the receiving chain.
    pub receiving_chain_length: u32,
    /// The own ratchet key pair.
    pub dh_ratchet_private: Option<Seq<u8>>,
    pub dh_ratchet_public: Seq<u8>,
    /// The peer's ratchet public key as last seen.
    pub remote_dh_public: Option<Seq<u8>>,
    /// The length of the sending chain at the last DH-ratchet step.
    pub previous_sending_length: u32,
    /// The keys skipped in the current receiving chain, by the numbers of
    /// their messages. A DH-ratchet step starts a new chain and discards
    /// them, so that a message number never stands for messages of two
    /// chains.
    pub skipped: Map<u32, SkippedKeyView>,
    pub session_id: Seq<char>,
    pub contact_id: Seq<char>,
}

/// Whether some stored key belongs to the message number.
pub open spec fn has_skipped(skipped: Map<u32, SkippedKeyView>, number: u32) -> bool {
    skipped.contains_key(number)
}

/// The invariant of the skipped-key table: at most
/// [`MAX_SKIPPED_MESSAGES`] keys, each for a message that the receiving
/// chain has passed.
pub open spec fn skipped_well_formed(skipped: Map<u32, SkippedKeyView>, receiving_chain_length: u32) -> bool {
    &&& skipped.dom().finite()
    &&& skipped.len() <= MAX_SKIPPED_MESSAGES
    &&& forall|number: u32| skipped.contains_key(number) ==> number < receiving_chain_length
}

/// Whether a key stored at `stored_at` is, at the time `now`, older than
/// [`MAX_SKIPPED_MESSAGE_AGE_SECONDS`] and may be evicted.
pub open spec fn is_expired(stored_at: u64, now: u64) -> bool {
    now - stored_at > MAX_SKIPPED_MESSAGE_AGE_SECONDS
}

/// The keys of a table that have not expired at the time `now`.
pub open spec fn unexpired_keys(skipped: Map<u32, SkippedKeyView>, now: u64) -> Map<u32, SkippedKeyView> {
    Map::new(
        |number: u32| skipped.contains_key(number) && !is_expired(skipped[number].stored_at, now),
        |number: u32| skipped[number],
    )
}

/// A table with the keys of the messages from the number `first` on added
/// to it: the key at place `i` of the list is that of the message
/// `first + i`.
pub open spec fn with_skipped(table: Map<u32, SkippedKeyView>, first: u32, keys: Seq<SkippedKeyView>) -> Map<
    u32,
    SkippedKeyView,
> {
    Map::new(
        |number: u32| table.contains_key(number) || first <= number < first + keys.len(),
        |number: u32|
            if first <= number < first + keys.len() {
                keys[number - first]
            } else {
                table[number]
            },
    )
}

/// Keys added behind the numbers of a table make it longer by as many as
/// they are.
pub proof fn lemma_with_skipped_len(table: Map<u32, SkippedKeyView>, first: u32, keys: Seq<SkippedKeyView>)
    requires
        table.dom().finite(),
        forall|number: u32| table.contains_key(number) ==> number < first,
        first + keys.len() <= u32::MAX + 1,
    ensures
        with_skipped(table, first, keys).dom().finite(),
        with_skipped(table, first, keys).len() == table.len() + keys.len(),
    decreases keys.len(),
{
    if keys.len() == 0 {
        assert(with_skipped(table, first, keys) =~= table);
    } else {
        let shorter = keys.drop_last();
        let last: u32 = (first + keys.len() - 1) as u32;
        lemma_with_skipped_len(table, first, shorter);
        assert(!with_skipped(table, first, shorter).contains_key(last));
        assert(with_skipped(table, first, keys) =~= with_skipped(table, first, shorter).insert(last, keys.last()));
    }
}

impl SessionState {
    /// The invariant of every reachable state.
    pub open spec fn well_formed(self) -> bool {
        skipped_well_formed(self.skipped, self.receiving_chain_length)
    }

    /// Whether the state belongs to a session over the suite `P`.
    pub open spec fn of_suite<P: CryptoProvider>(self) -> bool {
        self.suite_id == P::spec_suite_id()
    }
}

/// The HKDF info under which the initial root key is derived from the seed.
pub open spec fn initial_root_key_info() -> Seq<u8> {
    "InitialRootKey".spec_bytes()
}

/// The initial root key that belongs to a root key seed.
pub open spec fn initial_root_key<P: CryptoProvider>(seed: Seq<u8>) -> Result<Seq<u8>, CryptoError> {
    P::spec_hkdf_derive_key(Seq::empty(), seed, initial_root_key_info(), INITIAL_ROOT_KEY_LEN as nat)
}

/// The state of a fresh initiator session, given the ratchet key pair and
/// the session id it was dealt.
pub open spec fn new_sending_state<P: CryptoProvider>(
    suite_id: SuiteID,
    seed: Seq<u8>,
    remote_identity_public: Seq<u8>,
    local_identity_private: Seq<u8>,
    contact_id: Seq<char>,
    dh_private: Seq<u8>,
    dh_public: Seq<u8>,
    session_id: Seq<char>,
) -> Result<SessionState, CryptoError> {
    if suite_id != P::spec_suite_id() {
        Err(CryptoError::SuiteMismatch)
    } else {
        match initial_root_key::<P>(seed) {
            Err(e) => Err(e),
            Ok(initial) => match P::spec_kem_decapsulate(local_identity_private, dh_public) {
                Err(e) => Err(e),
                Ok(dh_output) => match P::spec_kdf_rk(initial, dh_output) {
                    Err(e) => Err(e),
                    Ok((root_key, chain_key)) => Ok(
                        SessionState {
                            suite_id,
                            root_key,
                            sending_chain_key: chain_key,
                            sending_chain_length: 0,
                            receiving_chain_key: Seq::empty(),
                            receiving_chain_length: 0,
                            dh_ratchet_private: Some(dh_private),
                            dh_ratchet_public: dh_public,
                            remote_dh_public: Some(remote_identity_public),
                            previous_sending_length: 0,
                            skipped: Map::empty(),
                            session_id,
                            contact_id,
                        },
                    ),
                },
            },
        }
    }
}

/// The state of a fresh responder session, given the first message
/// received, the ratchet key pair and the session id it was dealt.
pub open spec fn new_receiving_state<P: CryptoProvider>(
    suite_id: SuiteID,
    seed: Seq<u8>,
    local_identity_private: Seq<u8>,
    first_message: MessageView,
    contact_id: Seq<char>,
    dh_private: Seq<u8>,
    dh_public: Seq<u8>,
    session_id: Seq<char>,
) -> Result<SessionState, CryptoError> {
    let remote = first_message.dh_public_key;
    if suite_id != P::spec_suite_id() {
        Err(CryptoError::SuiteMismatch)
    } else {
        match initial_root_key::<P>(seed) {
            Err(e) => Err(e),
            Ok(initial) => match P::spec_kem_decapsulate(local_identity_private, remote) {
                Err(e) => Err(e),
                Ok(dh_receive) => match P::spec_kdf_rk(initial, dh_receive) {
                    Err(e) => Err(e),
                    Ok((root_key, receiving_chain_key)) => match P::spec_kem_decapsulate(dh_private, remote) {
                        Err(e) => Err(e),
                        Ok(dh_send) => match P::spec_kdf_rk(root_key, dh_send) {
                            Err(e) => Err(e),
                            Ok((final_root_key, sending_chain_key)) => Ok(
                                SessionState {
                                    suite_id,
                                    root_key: final_root_key,
                                    sending_chain_key,
                                    sending_chain_length: 0,
                                    receiving_chain_key,
                                    receiving_chain_length: 0,
                                    dh_ratchet_private: Some(dh_private),
                                    dh_ratchet_public: dh_public,
                                    remote_dh_public: Some(remote),
                                    previous_sending_length: 0,
                                    skipped: Map::empty(),
                                    session_id,
                                    contact_id,
                                },
                            ),
                        },
                    },
                },
            },
        }
    }
}

/// Encryption of one message under a given nonce: the next state and the
/// message. The chain advances by one key; the message is stamped with the
/// number the chain had, the own ratchet public key, the length of the
/// previous sending chain and the suite.
pub open spec fn encrypt_step<P: CryptoProvider>(state: SessionState, plaintext: Seq<u8>, nonce: Seq<u8>) -> Result<
    (SessionState, MessageView),
    CryptoError,
> {
    match P::spec_kdf_ck(state.sending_chain_key) {
        Err(e) => Err(e),
        Ok((message_key, next_chain_key)) => {
            if state.sending_chain_length == u32::MAX || state.dh_ratchet_public.len() != RATCHET_PUBLIC_KEY_LEN {
                Err(CryptoError::InvalidInput)
            } else {
                match P::spec_aead_encrypt(message_key, nonce, plaintext, None) {
                    Err(e) => Err(e),
                    Ok(ciphertext) => Ok(
                        (
                            SessionState {
                                sending_chain_key: next_chain_key,
                                sending_chain_length: (state.sending_chain_length + 1) as u32,
                                ..state
                            },
                            MessageView {
                                dh_public_key: state.dh_ratchet_public,
                                message_number: state.sending_chain_length,
                                ciphertext,
                                nonce,
                                previous_chain_length: state.previous_sending_length,
                                suite_id: state.suite_id,
                            },
                        ),
                    ),
                }
            }
        },
    }
}

/// Whether the message is one that the state emits for the plaintext: it
/// carries the stamps of the state, and its ciphertext opens to the
/// plaintext under the next message key of the sending chain.
pub open spec fn emitted_by<P: CryptoProvider>(state: SessionState, plaintext: Seq<u8>, message: MessageView) -> bool {
    &&& message.dh_public_key == state.dh_ratchet_public
    &&& message.message_number == state.sending_chain_length
    &&& message.previous_chain_length == state.previous_sending_length
    &&& message.suite_id == state.suite_id
    &&& state.sending_chain_length < u32::MAX
    &&& P::spec_kdf_ck(state.sending_chain_key) matches Ok(keys) && P::spec_aead_decrypt(
        keys.0,
        message.nonce,
        message.ciphertext,
        None,
    ) == Ok::<Seq<u8>, CryptoError>(plaintext)
}

/// Whether a message makes the session take a DH-ratchet step: it carries
/// a ratchet public key other than the one last seen.
pub open spec fn needs_ratchet(state: SessionState, message: MessageView) -> bool {
    state.remote_dh_public != Some(message.dh_public_key)
}

/// The DH-ratchet step towards a new remote ratchet key, given the fresh
/// key pair dealt for it. The length of the sending chain is remembered,
/// the root key advances twice, both chains start anew, the key pair is
/// replaced, and the keys skipped in the old receiving chain are dropped.
pub open spec fn ratchet_step<P: CryptoProvider>(
    state: SessionState,
    new_remote: Seq<u8>,
    fresh_private: Seq<u8>,
    fresh_public: Seq<u8>,
) -> Result<SessionState, CryptoError> {
    match state.dh_ratchet_private {
        None => Err(CryptoError::InvalidInput),
        Some(dh_private) => match P::spec_kem_decapsulate(dh_private, new_remote) {
            Err(e) => Err(e),
            Ok(dh_receive) => match P::spec_kdf_rk(state.root_key, dh_receive) {
                Err(e) => Err(e),
                Ok((root_key, receiving_chain_key)) => match P::spec_kem_decapsulate(fresh_private, new_remote) {
                    Err(e) => Err(e),
                    Ok(dh_send) => match P::spec_kdf_rk(root_key, dh_send) {
                        Err(e) => Err(e),
                        Ok((final_root_key, sending_chain_key)) => Ok(
                            SessionState {
                                root_key: final_root_key,
                                sending_chain_key,
                                sending_chain_length: 0,
                                receiving_chain_key,
                                receiving_chain_length: 0,
                                dh_ratchet_private: Some(fresh_private),
                                dh_ratchet_public: fresh_public,
                                remote_dh_public: Some(new_remote),
                                previous_sending_length: state.sending_chain_length,
                                skipped: Map::empty(),
                                ..state
                            },
                        ),
                    },
                },
            },
        },
    }
}

/// The keys of `count` messages passed over, in the order of the messages,
/// and the chain key that follows them.
pub open spec fn skip_message_keys<P: CryptoProvider>(chain_key: Seq<u8>, first: u32, count: nat, now: u64) -> Result<
    (Seq<SkippedKeyView>, Seq<u8>),
    CryptoError,
>
    decreases count,
{
    if count == 0 {
        Ok((Seq::empty(), chain_key))
    } else {
        match skip_message_keys::<P>(chain_key, first, (count - 1) as nat, now) {
            Err(e) => Err(e),
            Ok((keys, last_chain_key)) => match P::spec_kdf_ck(last_chain_key) {
                Err(e) => Err(e),
                Ok((message_key, next_chain_key)) => Ok(
                    (
                        keys.push(SkippedKeyView { key: message_key, stored_at: now }),
                        next_chain_key,
                    ),
                ),
            },
        }
    }
}

/// The receiving chain advanced to a message: the keys stored for the
/// messages passed over, the chain key after the message, and the
/// plaintext. A message behind the chain has no key; one so far ahead that
/// the table, which holds `stored` keys, would outgrow its limit is
/// refused before any key is derived.
pub open spec fn advance_step<P: CryptoProvider>(
    chain_key: Seq<u8>,
    chain_length: u32,
    stored: nat,
    message: MessageView,
    now: u64,
) -> Result<(Seq<SkippedKeyView>, Seq<u8>, Seq<u8>), CryptoError> {
    let number = message.message_number;
    if number < chain_length {
        Err(CryptoError::MessageKeyNotFound)
    } else if stored + (number - chain_length) > MAX_SKIPPED_MESSAGES {
        Err(CryptoError::TooManySkipped)
    } else if number == u32::MAX {
        Err(CryptoError::InvalidInput)
    } else {
        match skip_message_keys::<P>(chain_key, chain_length, (number - chain_length) as nat, now) {
            Err(e) => Err(e),
            Ok((keys, last_chain_key)) => match P::spec_kdf_ck(last_chain_key) {
                Err(e) => Err(e),
                Ok((message_key, next_chain_key)) => match P::spec_aead_decrypt(
                    message_key,
                    message.nonce,
                    message.ciphertext,
                    None,
                ) {
                    Err(e) => Err(e),
                    Ok(plaintext) => Ok((keys, next_chain_key, plaintext)),
                },
            },
        }
    }
}

/// Decryption in a state that has the message's ratchet key as its remote
/// key. A stored key for the message number is used and removed. Otherwise
/// the receiving chain advances to the message number and the keys it
/// passes are stored.
pub open spec fn receive_step<P: CryptoProvider>(state: SessionState, message: MessageView, now: u64) -> Result<
    (SessionState, Seq<u8>),
    CryptoError,
> {
    if has_skipped(state.skipped, message.message_number) {
        match P::spec_aead_decrypt(
            state.skipped[message.message_number].key,
            message.nonce,
            message.ciphertext,
            None,
        ) {
            Err(e) => Err(e),
            Ok(plaintext) => Ok(
                (SessionState { skipped: state.skipped.remove(message.message_number), ..state }, plaintext),
            ),
        }
    } else {
        match advance_step::<P>(
            state.receiving_chain_key,
            state.receiving_chain_length,
            state.skipped.len(),
            message,
            now,
        ) {
            Err(e) => Err(e),
            Ok((keys, next_chain_key, plaintext)) => Ok(
                (
                    SessionState {
                        receiving_chain_key: next_chain_key,
                        receiving_chain_length: (message.message_number + 1) as u32,
                        skipped: with_skipped(state.skipped, state.receiving_chain_length, keys),
                        ..state
                    },
                    plaintext,
                ),
            ),
        }
    }
}

/// Decryption of one message: the next state and the plaintext. A message
/// of another suite is refused. A message with a new ratchet key makes the
/// session take a DH-ratchet step first, with the fresh key pair given.
/// Where any step fails there is no next state.
pub open spec fn decrypt_step<P: CryptoProvider>(
    state: SessionState,
    message: MessageView,
    now: u64,
    fresh_private: Seq<u8>,
    fresh_public: Seq<u8>,
) -> Result<(SessionState, Seq<u8>), CryptoError> {
    if message.suite_id != state.suite_id {
        Err(CryptoError::SuiteMismatch)
    } else if needs_ratchet(state, message) {
        match ratchet_step::<P>(state, message.dh_public_key, fresh_private, fresh_public) {
            Err(e) => Err(e),
            Ok(ratcheted) => receive_step::<P>(ratcheted, message, now),
        }
    } else {
        receive_step::<P>(state, message, now)
    }
}

/// Whether `outcome` and `after` are what decryption of a message that
/// asks for no DH-ratchet step gives in the state `before` at some time:
/// the plaintext and the next state, or the error and the state as it
/// was. No key pair takes part in it.
pub open spec fn decrypted_on_chain<P: CryptoProvider>(
    before: SessionState,
    after: SessionState,
    message: MessageView,
    outcome: Result<Seq<u8>, CryptoError>,
) -> bool {
    exists|now: u64|
        match #[trigger] decrypt_step::<P>(before, message, now, Seq::empty(), Seq::empty()) {
            Ok((state, plaintext)) => outcome == Ok::<Seq<u8>, CryptoError>(plaintext) && after == state,
            Err(e) => outcome == Err::<Seq<u8>, CryptoError>(e) && after == before,
        }
}

/// Whether a state is what a fresh initiator session may start in: the
/// state made with some ratchet key pair of the suite and the text of some
/// version 4 UUID as session id.
pub open spec fn is_new_sending_state<P: CryptoProvider>(
    state: SessionState,
    suite_id: SuiteID,
    seed: Seq<u8>,
    remote_identity_public: Seq<u8>,
    local_identity_private: Seq<u8>,
    contact_id: Seq<char>,
) -> bool {
    exists|dh_private: Seq<u8>, dh_public: Seq<u8>, random: Seq<u8>|
        P::spec_kem_public(dh_private) == Ok::<Seq<u8>, CryptoError>(dh_public) && random.len() == 16
            && #[trigger] new_sending_state::<P>(
            suite_id,
            seed,
            remote_identity_public,
            local_identity_private,
            contact_id,
            dh_private,
            dh_public,
            uuid_v4_text(random),
        ) == Ok::<SessionState, CryptoError>(state)
}

/// Whether a state is what a fresh responder session may start in.
pub open spec fn is_new_receiving_state<P: CryptoProvider>(
    state: SessionState,
    suite_id: SuiteID,
    seed: Seq<u8>,
    local_identity_private: Seq<u8>,
    first_message: MessageView,
    contact_id: Seq<char>,
) -> bool {
    exists|dh_private: Seq<u8>, dh_public: Seq<u8>, random: Seq<u8>|
        P::spec_kem_public(dh_private) == Ok::<Seq<u8>, CryptoError>(dh_public) && random.len() == 16
            && #[trigger] new_receiving_state::<P>(
            suite_id,
            seed,
            local_identity_private,
            first_message,
            contact_id,
            dh_private,
            dh_public,
            uuid_v4_text(random),
        ) == Ok::<SessionState, CryptoError>(state)
}

/// What a session snapshot holds, as plain values.
pub struct SnapshotView {
    pub suite_id: SuiteID,
    pub root_key: Seq<u8>,
    pub sending_chain_key: Seq<u8>,
    pub sending_chain_length: u32,
    pub receiving_chain_key: Seq<u8>,
    pub receiving_chain_length: u32,
    pub dh_ratchet_private: Option<Seq<u8>>,
    pub dh_ratchet_public: Seq<u8>,
    pub remote_dh_public: Option<Seq<u8>>,
    pub previous_sending_length: u32,
    pub skipped_message_keys: Map<u32, Seq<u8>>,
    pub skipped_key_timestamps: Map<u32, u64>,
    pub session_id: Seq<char>,
    pub contact_id: Seq<char>,
}

/// A session as a record of bytes, numbers and text, for storage. The
/// skipped message keys and the times at which they were stored are two
/// tables by message number.
#[derive(Debug)]
pub struct SerializableSession {
    pub suite_id: SuiteID,
    pub root_key: Vec<u8>,
    pub sending_chain_key: Vec<u8>,
    pub sending_chain_length: u32,
    pub receiving_chain_key: Vec<u8>,
    pub receiving_chain_length: u32,
    pub dh_ratchet_private: Option<Vec<u8>>,
    pub dh_ratchet_public: Vec<u8>,
    pub remote_dh_public: Option<Vec<u8>>,
    pub previous_sending_length: u32,
    pub skipped_message_keys: HashMap<u32, Vec<u8>>,
    pub skipped_key_timestamps: HashMap<u32, u64>,
    pub session_id: String,
    pub contact_id: String,
}

/// The entries of a table of message keys, as plain values.
pub open spec fn key_table_view(table: Map<u32, Vec<u8>>) -> Map<u32, Seq<u8>> {
    table.map_values(|key: Vec<u8>| key@)
}

impl View for SerializableSession {
    type V = SnapshotView;

    open spec fn view(&self) -> SnapshotView {
        SnapshotView {
            suite_id: self.suite_id,
            root_key: self.root_key@,
            sending_chain_key: self.sending_chain_key@,
            sending_chain_length: self.sending_chain_length,
            receiving_chain_key: self.receiving_chain_key@,
            receiving_chain_length: self.receiving_chain_length,
            dh_ratchet_private: optional_bytes_view(self.dh_ratchet_private),
            dh_ratchet_public: self.dh_ratchet_public@,
            remote_dh_public: optional_bytes_view(self.remote_dh_public),
            previous_sending_length: self.previous_sending_length,
            skipped_message_keys: key_table_view(self.skipped_message_keys@),
            skipped_key_timestamps: self.skipped_key_timestamps@,
            session_id: self.session_id@,
            contact_id: self.contact_id@,
        }
    }
}

/// The snapshot of a state: every field as it is, the skipped keys split
/// into the table of keys and the table of times.
pub open spec fn snapshot_of(state: SessionState) -> SnapshotView {
    SnapshotView {
        suite_id: state.suite_id,
        root_key: state.root_key,
        sending_chain_key: state.sending_chain_key,
        sending_chain_length: state.sending_chain_length,
        receiving_chain_key: state.receiving_chain_key,
        receiving_chain_length: state.receiving_chain_length,
        dh_ratchet_private: state.dh_ratchet_private,
        dh_ratchet_public: state.dh_ratchet_public,
        remote_dh_public: state.remote_dh_public,
        previous_sending_length: state.previous_sending_length,
        skipped_message_keys: state.skipped.map_values(|k: SkippedKeyView| k.key),
        skipped_key_timestamps: state.skipped.map_values(|k: SkippedKeyView| k.stored_at),
        session_id: state.session_id,
        contact_id: state.contact_id,
    }
}

/// The skipped keys that the two tables of a snapshot stand for.
pub open spec fn merged_skipped(keys: Map<u32, Seq<u8>>, timestamps: Map<u32, u64>) -> Map<u32, SkippedKeyView> {
    Map::new(
        |number: u32| keys.contains_key(number),
        |number: u32| SkippedKeyView { key: keys[number], stored_at: timestamps[number] },
    )
}

/// Whether the two tables of a snapshot hold the same message numbers and
/// stand for a well-formed table of skipped keys.
pub open spec fn tables_consistent(
    keys: Map<u32, Seq<u8>>,
    timestamps: Map<u32, u64>,
    receiving_chain_length: u32,
) -> bool {
    &&& keys.dom() == timestamps.dom()
    &&& skipped_well_formed(merged_skipped(keys, timestamps), receiving_chain_length)
}

/// The state a snapshot restores to. A snapshot of another suite is
/// refused with `SuiteMismatch`, one whose tables are inconsistent with
/// `Serialization`; every other snapshot restores, field by field.
pub open spec fn restored_state<P: CryptoProvider>(snapshot: SnapshotView) -> Result<SessionState, CryptoError> {
    if snapshot.suite_id != P::spec_suite_id() {
        Err(CryptoError::SuiteMismatch)
    } else if !tables_consistent(
        snapshot.skipped_message_keys,
        snapshot.skipped_key_timestamps,
        snapshot.receiving_chain_length,
    ) {
        Err(CryptoError::Serialization)
    } else {
        Ok(
            SessionState {
                suite_id: snapshot.suite_id,
                root_key: snapshot.root_key,
                sending_chain_key: snapshot.sending_chain_key,
                sending_chain_length: snapshot.sending_chain_length,
                receiving_chain_key: snapshot.receiving_chain_key,
                receiving_chain_length: snapshot.receiving_chain_length,
                dh_ratchet_private: snapshot.dh_ratchet_private,
                dh_ratchet_public: snapshot.dh_ratchet_public,
                remote_dh_public: snapshot.remote_dh_public,
                previous_sending_length: snapshot.previous_sending_length,
                skipped: merged_skipped(snapshot.skipped_message_keys, snapshot.skipped_key_timestamps),
                session_id: snapshot.session_id,
                contact_id: snapshot.contact_id,
            },
        )
    }
}

/// The table of skipped keys that the two tables of a snapshot stand for,
/// where they are consistent.
fn table_from_snapshot(
    keys: &HashMap<u32, Vec<u8>>,
    timestamps: &HashMap<u32, u64>,
    receiving_chain_length: u32,
) -> (table: Option<HashMap<u32, SkippedKey>>)
    ensures
        table is Some <==> tables_consistent(key_table_view(keys@), timestamps@, receiving_chain_length),
        table matches Some(t) ==> table_view(t@) == merged_skipped(key_table_view(keys@), timestamps@),
{
    let ghost key_view = key_table_view(keys@);
    let ghost merged = merged_skipped(key_view, timestamps@);
    assert(key_view.dom() =~= keys@.dom());
    assert(merged.dom() =~= keys@.dom());
    if keys.len() != timestamps.len() || keys.len() > MAX_SKIPPED_MESSAGES as usize {
        return None;
    }
    let mut table: HashMap<u32, SkippedKey> = HashMap::new();
    for number in it: keys.keys()
        invariant
            key_view == key_table_view(keys@),
            merged == merged_skipped(key_view, timestamps@),
            merged.dom() == keys@.dom(),
            key_view.dom() == keys@.dom(),
            it.seq().unref().to_set() == keys@.dom(),
            forall|k: u32|
                #[trigger] table@.contains_key(k) ==> keys@.contains_key(k) && timestamps@.contains_key(k) && k
                    < receiving_chain_length && table@[k]@ == merged[k],
            forall|j: int| 0 <= j < it.index() ==> table@.contains_key(*(#[trigger] it.seq()[j])),
            it.index() == it.seq().len() ==> forall|k: u32| keys@.contains_key(k) ==> table@.contains_key(k),
    {
        assert(it.seq().unref().contains(*number));
        assert(keys@.dom().contains(*number));
        assert(merged.contains_key(*number));
        if *number >= receiving_chain_length {
            return None;
        }
        let stored_at = match timestamps.get(number) {
            Some(time) => *time,
            None => {
                return None;
            },
        };
        match keys.get(number) {
            Some(key) => {
                let entry = SkippedKey { key: key.clone(), stored_at };
                assert(entry@ == merged[*number]);
                table.insert(*number, entry);
            },
            None => {},
        }
        assert forall|k: u32| it.index() + 1 == it.seq().len() && keys@.contains_key(k) implies table@.contains_key(
            k,
        ) by {
            assert(it.seq().unref().to_set().contains(k));
            assert(it.seq().unref().contains(k));
            let j = it.seq().unref().index_of(k);
            assert(it.seq().unref()[j] == k);
            assert(*it.seq()[j] == k);
        }
    }
    proof {
        assert(table@.dom() =~= keys@.dom());
        assert(keys@.dom().subset_of(timestamps@.dom()));
        vstd::set_lib::lemma_subset_equality(keys@.dom(), timestamps@.dom());
        assert(table_view(table@) =~= merged);
    }
    Some(table)
}

/// Drops from a table the keys that have expired at the time `now`.
fn drop_expired(table: &mut HashMap<u32, SkippedKey>, now: u64)
    ensures
        table_view(final(table)@) == unexpired_keys(table_view(old(table)@), now),
{
    let ghost before = table@;
    let mut expired: Vec<u32> = Vec::new();
    for number in it: table.keys()
        invariant
            table@ == before,
            it.seq().unref().to_set() == before.dom(),
            forall|i: int|
                0 <= i < expired@.len() ==> before.contains_key(#[trigger] expired@[i]) && is_expired(
                    before[expired@[i]].stored_at,
                    now,
                ),
            forall|j: int|
                0 <= j < it.index() ==> (is_expired(before[*(#[trigger] it.seq()[j])].stored_at, now)
                    ==> expired@.contains(*it.seq()[j])),
            it.index() == it.seq().len() ==> forall|k: u32|
                before.contains_key(k) && is_expired(before[k].stored_at, now) ==> expired@.contains(k),
    {
        assert(it.seq().unref().contains(*number));
        assert(before.dom().contains(*number));
        match table.get(number) {
            Some(entry) => {
                if now > entry.stored_at && now - entry.stored_at > MAX_SKIPPED_MESSAGE_AGE_SECONDS as u64 {
                    let ghost found = expired@;
                    expired.push(*number);
                    assert(expired@[expired@.len() - 1] == *number);
                    assert forall|j: int|
                        0 <= j < it.index() + 1 && is_expired(
                            before[*(#[trigger] it.seq()[j])].stored_at,
                            now,
                        ) implies expired@.contains(*it.seq()[j]) by {
                        if j < it.index() {
                            let w = choose|w: int| 0 <= w < found.len() && #[trigger] found[w] == *it.seq()[j];
                            assert(expired@[w] == *it.seq()[j]);
                        }
                    }
                }
            },
            None => {},
        }
        assert forall|k: u32|
            it.index() + 1 == it.seq().len() && before.contains_key(k) && is_expired(
                before[k].stored_at,
                now,
            ) implies expired@.contains(k) by {
            assert(it.seq().unref().to_set().contains(k));
            assert(it.seq().unref().contains(k));
            assert(exists|j: int| 0 <= j < it.seq().len() && *(#[trigger] it.seq()[j]) == k) by {
                let j = it.seq().unref().index_of(k);
                assert(it.seq().unref()[j] == k);
                assert(*it.seq()[j] == k);
            }
        }
    }
    let mut i: usize = 0;
    while i < expired.len()
        invariant
            i <= expired@.len(),
            forall|k: u32| table@.contains_key(k) <==> before.contains_key(k) && !expired@.take(i as int).contains(k),
            forall|k: u32| table@.contains_key(k) ==> table@[k] == before[k],
            forall|k: u32|
                before.contains_key(k) && is_expired(before[k].stored_at, now) ==> expired@.contains(k),
            forall|i: int|
                0 <= i < expired@.len() ==> before.contains_key(#[trigger] expired@[i]) && is_expired(
                    before[expired@[i]].stored_at,
                    now,
                ),
        decreases expired@.len() - i,
    {
        let ghost previous = table@;
        table.remove(&expired[i]);
        proof {
            let gone = expired@[i as int];
            assert(table@ == previous.remove(gone));
            assert(expired@.take(i + 1) =~= expired@.take(i as int).push(gone));
            assert forall|k: u32|
                table@.contains_key(k) <==> before.contains_key(k) && !expired@.take(i + 1).contains(k) by {
                if k == gone {
                    assert(expired@.take(i + 1)[i as int] == gone);
                } else if previous.contains_key(k) {
                    if expired@.take(i + 1).contains(k) {
                        let w = choose|w: int| 0 <= w < i + 1 && #[trigger] expired@.take(i + 1)[w] == k;
                        assert(expired@.take(i as int)[w] == k);
                    }
                }
            }
        }
        i += 1;
    }
    proof {
        assert(expired@.take(expired@.len() as int) =~= expired@);
        let target = unexpired_keys(table_view(before), now);
        assert forall|k: u32| table_view(table@).contains_key(k) <==> target.contains_key(k) by {
            if before.contains_key(k) && expired@.contains(k) {
                let w = choose|w: int| 0 <= w < expired@.len() && #[trigger] expired@[w] == k;
            }
        }
        assert(table_view(table@) =~= target);
    }
}

/// One Double Ratchet session over the suite `P`.
pub struct DoubleRatchetSession<P: CryptoProvider> {
    suite_id: SuiteID,
    root_key: SecretBytes,
    sending_chain_key: SecretBytes,
    sending_chain_length: u32,
    receiving_chain_key: SecretBytes,
    receiving_chain_length: u32,
    dh_ratchet_private: Option<SecretBytes>,
    dh_ratchet_public: Vec<u8>,
    remote_dh_public: Option<Vec<u8>>,
    previous_sending_length: u32,
    skipped: HashMap<u32, SkippedKey>,
    session_id: String,
    contact_id: String,
    _phantom: PhantomData<P>,
}

impl<P: CryptoProvider> View for DoubleRatchetSession<P> {
    type V = SessionState;

    closed spec fn view(&self) -> SessionState {
        SessionState {
            suite_id: self.suite_id,
            root_key: self.root_key@,
            sending_chain_key: self.sending_chain_key@,
            sending_chain_length: self.sending_chain_length,
            receiving_chain_key: self.receiving_chain_key@,
            receiving_chain_length: self.receiving_chain_length,
            dh_ratchet_private: optional_secret_view(self.dh_ratchet_private),
            dh_ratchet_public: self.dh_ratchet_public@,
            remote_dh_public: optional_bytes_view(self.remote_dh_public),
            previous_sending_length: self.previous_sending_length,
            skipped: table_view(self.skipped@),
            session_id: self.session_id@,
            contact_id: self.contact_id@,
        }
    }
}

/// Once a key derivation has failed, skipping further changes nothing.
proof fn lemma_skip_failure_stays<P: CryptoProvider>(chain_key: Seq<u8>, first: u32, failed: nat, count: nat, now: u64)
    requires
        failed <= count,
        skip_message_keys::<P>(chain_key, first, failed, now) is Err,
    ensures
        skip_message_keys::<P>(chain_key, first, count, now) == skip_message_keys::<P>(chain_key, first, failed, now),
    decreases count,
{
    if failed < count {
        lemma_skip_failure_stays::<P>(chain_key, first, failed, (count - 1) as nat, now);
    }
}

/// The keys stored for messages passed over are as many as the messages,
/// and each is stored at the time given.
pub proof fn lemma_skip_message_keys_numbers<P: CryptoProvider>(chain_key: Seq<u8>, first: u32, count: nat, now: u64)
    requires
        first + count <= u32::MAX,
    ensures
        skip_message_keys::<P>(chain_key, first, count, now) matches Ok(skipped) ==> {
            &&& skipped.0.len() == count
            &&& forall|i: int| 0 <= i < count ==> (#[trigger] skipped.0[i]).stored_at == now
        },
    decreases count,
{
    if count > 0 {
        lemma_skip_message_keys_numbers::<P>(chain_key, first, (count - 1) as nat, now);
    }
}

/// Advances a receiving chain to a message and decrypts it: the keys of the
/// messages passed over, the chain key after the message, the plaintext.
fn advance_receiving_chain<P: CryptoProvider>(
    chain_key: &SecretBytes,
    chain_length: u32,
    stored: usize,
    encrypted: &EncryptedRatchetMessage,
    now: u64,
) -> (r: Result<(Vec<SkippedKey>, SecretBytes, Vec<u8>), CryptoError>)
    requires
        stored <= MAX_SKIPPED_MESSAGES,
    ensures
        match advance_step::<P>(chain_key@, chain_length, stored as nat, encrypted@, now) {
            Ok((keys, next_chain_key, plaintext)) => r matches Ok(t) && skipped_view(t.0@) == keys && t.1@
                == next_chain_key && t.2@ == plaintext,
            Err(e) => r matches Err(f) && f == e,
        },
{
    let number = encrypted.message_number;
    if number < chain_length {
        return Err(CryptoError::MessageKeyNotFound);
    }
    let gap: u32 = number - chain_length;
    if gap as usize > MAX_SKIPPED_MESSAGES as usize - stored {
        return Err(CryptoError::TooManySkipped);
    }
    if number == u32::MAX {
        return Err(CryptoError::InvalidInput);
    }
    let mut keys: Vec<SkippedKey> = Vec::new();
    let mut current: SecretBytes = chain_key.clone();
    let mut passed: u32 = 0;
    assert(skipped_view(keys@) =~= Seq::empty());
    while passed < gap
        invariant
            passed <= gap,
            number == encrypted.message_number,
            chain_length <= number < u32::MAX,
            gap == number - chain_length,
            stored + gap <= MAX_SKIPPED_MESSAGES,
            skip_message_keys::<P>(chain_key@, chain_length, passed as nat, now) == Ok::<
                (Seq<SkippedKeyView>, Seq<u8>),
                CryptoError,
            >((skipped_view(keys@), current@)),
        decreases gap - passed,
    {
        let ghost before = skipped_view(keys@);
        match secret_kdf_ck::<P>(&current) {
            Err(e) => {
                proof {
                    assert(skip_message_keys::<P>(chain_key@, chain_length, (passed + 1) as nat, now) == Err::<
                        (Seq<SkippedKeyView>, Seq<u8>),
                        CryptoError,
                    >(e));
                    lemma_skip_failure_stays::<P>(chain_key@, chain_length, (passed + 1) as nat, gap as nat, now);
                }
                return Err(e);
            },
            Ok((message_key, next_chain_key)) => {
                let entry = SkippedKey { key: message_key.to_vec(), stored_at: now };
                keys.push(entry);
                current = next_chain_key;
                assert(skipped_view(keys@) =~= before.push(entry@));
            },
        }
        passed += 1;
    }
    let (message_key, next_chain_key) = secret_kdf_ck::<P>(&current)?;
    let plaintext = P::aead_decrypt(
        message_key.as_vec(),
        encrypted.nonce.as_slice(),
        encrypted.ciphertext.as_slice(),
        None,
    )?;
    Ok((keys, next_chain_key, plaintext))
}

/// The three keys a DH-ratchet step derives.
struct RatchetKeys {
    root_key: SecretBytes,
    receiving_chain_key: SecretBytes,
    sending_chain_key: SecretBytes,
}

impl<P: CryptoProvider> DoubleRatchetSession<P> {
    #[verifier::type_invariant]
    spec fn session_invariant(self) -> bool {
        self@.well_formed() && self@.of_suite::<P>()
    }

    /// The identifier of the session.
    pub fn session_id(&self) -> (id: &str)
        ensures
            id@ == self@.session_id,
    {
        self.session_id.as_str()
    }

    /// The identifier of the contact the session is held with.
    pub fn contact_id(&self) -> (id: &str)
        ensures
            id@ == self@.contact_id,
    {
        self.contact_id.as_str()
    }

    /// The suite of the session: that of `P`.
    pub fn suite_id(&self) -> (id: SuiteID)
        ensures
            id == self@.suite_id,
            id == P::spec_suite_id(),
    {
        proof {
            use_type_invariant(self);
        }
        self.suite_id
    }

    /// How many messages the current sending chain has produced.
    pub fn sending_chain_length(&self) -> (n: u32)
        ensures
            n == self@.sending_chain_length,
    {
        self.sending_chain_length
    }

    /// The number of the next message expected on the receiving chain.
    pub fn receiving_chain_length(&self) -> (n: u32)
        ensures
            n == self@.receiving_chain_length,
    {
        self.receiving_chain_length
    }

    /// The length of the sending chain at the last DH-ratchet step.
    pub fn previous_sending_length(&self) -> (n: u32)
        ensures
            n == self@.previous_sending_length,
    {
        self.previous_sending_length
    }

    /// How many skipped message keys are stored: never more than
    /// [`MAX_SKIPPED_MESSAGES`].
    pub fn skipped_key_count(&self) -> (n: usize)
        ensures
            n == self@.skipped.len(),
            n <= MAX_SKIPPED_MESSAGES,
            self@.well_formed(),
    {
        proof {
            use_type_invariant(self);
            assert(table_view(self.skipped@).dom() =~= self.skipped@.dom());
        }
        self.skipped.len()
    }

    /// Whether a key is stored for the message number.
    pub fn has_skipped_key(&self, message_number: u32) -> (stored: bool)
        ensures
            stored == has_skipped(self@.skipped, message_number),
    {
        self.skipped.get(&message_number).is_some()
    }

    /// The session id of a new session: the text of a version 4 UUID made
    /// from 16 random bytes. Fails with `KeyDerivation` only, where no
    /// randomness could be had.
    fn fresh_session_id() -> (r: Result<String, CryptoError>)
        ensures
            r matches Ok(id) ==> exists|random: Seq<u8>| random.len() == 16 && id@ == #[trigger] uuid_v4_text(random),
            r matches Err(e) ==> e == CryptoError::KeyDerivation,
    {
        match os_random_bytes(16) {
            None => Err(CryptoError::KeyDerivation),
            Some(random) => {
                let id = uuid_v4_from_bytes(random.as_slice());
                assert(random@.len() == 16 && id@ == uuid_v4_text(random@));
                Ok(id)
            },
        }
    }

    /// The initiator's session, made with a given ratchet key pair (private
    /// key first) and session id.
    pub fn new_x3dh_session_with_keys(
        suite_id: SuiteID,
        root_key_bytes: &[u8],
        remote_identity_public_kem_pk: &Vec<u8>,
        local_identity_private_kem_sk: &Vec<u8>,
        contact_id: String,
        ratchet_keys: (Vec<u8>, Vec<u8>),
        session_id: String,
    ) -> (r: Result<Self, CryptoError>)
        ensures
            match new_sending_state::<P>(
                suite_id,
                root_key_bytes@,
                remote_identity_public_kem_pk@,
                local_identity_private_kem_sk@,
                contact_id@,
                ratchet_keys.0@,
                ratchet_keys.1@,
                session_id@,
            ) {
                Ok(state) => r matches Ok(session) && session@ == state,
                Err(e) => r matches Err(f) && f == e,
            },
    {
        let dh_private = SecretBytes::new(ratchet_keys.0);
        let dh_public = ratchet_keys.1;
        if suite_id != P::suite_id() {
            return Err(CryptoError::SuiteMismatch);
        }
        let salt: Vec<u8> = Vec::new();
        let initial = secret_hkdf_derive_key::<P>(
            salt.as_slice(),
            root_key_bytes,
            "InitialRootKey".as_bytes(),
            INITIAL_ROOT_KEY_LEN,
        )?;
        let dh_output = secret_kem_decapsulate::<P>(local_identity_private_kem_sk, dh_public.as_slice())?;
        let (root_key, chain_key) = secret_kdf_rk::<P>(&initial, &dh_output)?;
        let skipped: HashMap<u32, SkippedKey> = HashMap::new();
        assert(table_view(skipped@) =~= Map::empty());
        let session = DoubleRatchetSession {
            suite_id,
            root_key,
            sending_chain_key: chain_key,
            sending_chain_length: 0,
            receiving_chain_key: SecretBytes::new(Vec::new()),
            receiving_chain_length: 0,
            dh_ratchet_private: Some(dh_private),
            dh_ratchet_public: dh_public,
            remote_dh_public: Some(remote_identity_public_kem_pk.clone()),
            previous_sending_length: 0,
            skipped,
            session_id,
            contact_id,
            _phantom: PhantomData,
        };
        assert(session@.skipped =~= Map::empty());
        assert(session@.receiving_chain_key =~= Seq::empty());
        Ok(session)
    }

    /// The initiator's session: made from the root key seed of the
    /// handshake, with a fresh ratchet key pair and a fresh session id.
    /// Where it fails, no randomness could be had (`KeyDerivation`) or no
    /// key pair would have made a session.
    pub fn new_x3dh_session(
        suite_id: SuiteID,
        root_key_bytes: &[u8],
        remote_identity_public_kem_pk: &Vec<u8>,
        local_identity_private_kem_sk: &Vec<u8>,
        contact_id: String,
    ) -> (r: Result<Self, CryptoError>)
        ensures
            r matches Ok(session) ==> is_new_sending_state::<P>(
                session@,
                suite_id,
                root_key_bytes@,
                remote_identity_public_kem_pk@,
                local_identity_private_kem_sk@,
                contact_id@,
            ),
            r matches Err(e) ==> e == CryptoError::KeyDerivation || exists|
                dh_private: Seq<u8>,
                dh_public: Seq<u8>,
                session_id: Seq<char>,
            |
                #[trigger] new_sending_state::<P>(
                    suite_id,
                    root_key_bytes@,
                    remote_identity_public_kem_pk@,
                    local_identity_private_kem_sk@,
                    contact_id@,
                    dh_private,
                    dh_public,
                    session_id,
                ) == Err::<SessionState, CryptoError>(e),
    {
        let ratchet_keys = P::generate_kem_keys()?;
        let session_id = Self::fresh_session_id()?;
        let ghost dh_private = ratchet_keys.0@;
        let ghost dh_public = ratchet_keys.1@;
        let ghost id = session_id@;
        let ghost contact = contact_id@;
        let r = Self::new_x3dh_session_with_keys(
            suite_id,
            root_key_bytes,
            remote_identity_public_kem_pk,
            local_identity_private_kem_sk,
            contact_id,
            ratchet_keys,
            session_id,
        );
        proof {
            let outcome = new_sending_state::<P>(
                suite_id,
                root_key_bytes@,
                remote_identity_public_kem_pk@,
                local_identity_private_kem_sk@,
                contact,
                dh_private,
                dh_public,
                id,
            );
            if r is Ok {
                let random = choose|random: Seq<u8>| random.len() == 16 && id == #[trigger] uuid_v4_text(random);
                assert(new_sending_state::<P>(
                    suite_id,
                    root_key_bytes@,
                    remote_identity_public_kem_pk@,
                    local_identity_private_kem_sk@,
                    contact,
                    dh_private,
                    dh_public,
                    uuid_v4_text(random),
                ) == Ok::<SessionState, CryptoError>(r->Ok_0@));
            } else {
                assert(outcome == Err::<SessionState, CryptoError>(r->Err_0));
            }
        }
        r
    }

    /// The responder's session, made from the first message received, with
    /// a given ratchet key pair (private key first) and session id.
    pub fn new_receiving_session_with_keys(
        suite_id: SuiteID,
        root_key_bytes: &[u8],
        local_identity_private_kem_sk: &Vec<u8>,
        first_message: &EncryptedRatchetMessage,
        contact_id: String,
        ratchet_keys: (Vec<u8>, Vec<u8>),
        session_id: String,
    ) -> (r: Result<Self, CryptoError>)
        ensures
            match new_receiving_state::<P>(
                suite_id,
                root_key_bytes@,
                local_identity_private_kem_sk@,
                first_message@,
                contact_id@,
                ratchet_keys.0@,
                ratchet_keys.1@,
                session_id@,
            ) {
                Ok(state) => r matches Ok(session) && session@ == state,
                Err(e) => r matches Err(f) && f == e,
            },
    {
        let dh_private = SecretBytes::new(ratchet_keys.0);
        let dh_public = ratchet_keys.1;
        if suite_id != P::suite_id() {
            return Err(CryptoError::SuiteMismatch);
        }
        let remote_dh_public = Self::bytes_to_kem_public_key(slice_to_vec(first_message.dh_public_key.as_slice()));
        let salt: Vec<u8> = Vec::new();
        let initial = secret_hkdf_derive_key::<P>(
            salt.as_slice(),
            root_key_bytes,
            "InitialRootKey".as_bytes(),
            INITIAL_ROOT_KEY_LEN,
        )?;
        let dh_receive = secret_kem_decapsulate::<P>(local_identity_private_kem_sk, remote_dh_public.as_slice())?;
        let (root_key, receiving_chain_key) = secret_kdf_rk::<P>(&initial, &dh_receive)?;
        let dh_send = secret_kem_decapsulate::<P>(dh_private.as_vec(), remote_dh_public.as_slice())?;
        let (final_root_key, sending_chain_key) = secret_kdf_rk::<P>(&root_key, &dh_send)?;
        let skipped: HashMap<u32, SkippedKey> = HashMap::new();
        assert(table_view(skipped@) =~= Map::empty());
        let session = DoubleRatchetSession {
            suite_id,
            root_key: final_root_key,
            sending_chain_key,
            sending_chain_length: 0,
            receiving_chain_key,
            receiving_chain_length: 0,
            dh_ratchet_private: Some(dh_private),
            dh_ratchet_public: dh_public,
            remote_dh_public: Some(remote_dh_public),
            previous_sending_length: 0,
            skipped,
            session_id,
            contact_id,
            _phantom: PhantomData,
        };
        assert(session@.skipped =~= Map::empty());
        Ok(session)
    }

    /// The responder's session: made from the root key seed of the
    /// handshake and the first message received, with a fresh ratchet key
    /// pair and a fresh session id. Where it fails, no randomness could be
    /// had (`KeyDerivation`) or no key pair would have made a session.
    pub fn new_receiving_session(
        suite_id: SuiteID,
        root_key_bytes: &[u8],
        local_identity_private_kem_sk: &Vec<u8>,
        first_message: &EncryptedRatchetMessage,
        contact_id: String,
    ) -> (r: Result<Self, CryptoError>)
        ensures
            r matches Ok(session) ==> is_new_receiving_state::<P>(
                session@,
                suite_id,
                root_key_bytes@,
                local_identity_private_kem_sk@,
                first_message@,
                contact_id@,
            ),
            r matches Err(e) ==> e == CryptoError::KeyDerivation || exists|
                dh_private: Seq<u8>,
                dh_public: Seq<u8>,
                session_id: Seq<char>,
            |
                #[trigger] new_receiving_state::<P>(
                    suite_id,
                    root_key_bytes@,
                    local_identity_private_kem_sk@,
                    first_message@,
                    contact_id@,
                    dh_private,
                    dh_public,
                    session_id,
                ) == Err::<SessionState, CryptoError>(e),
    {
        let ratchet_keys = P::generate_kem_keys()?;
        let session_id = Self::fresh_session_id()?;
        let ghost dh_private = ratchet_keys.0@;
        let ghost dh_public = ratchet_keys.1@;
        let ghost id = session_id@;
        let ghost contact = contact_id@;
        let r = Self::new_receiving_session_with_keys(
            suite_id,
            root_key_bytes,
            local_identity_private_kem_sk,
            first_message,
            contact_id,
            ratchet_keys,
            session_id,
        );
        proof {
            let outcome = new_receiving_state::<P>(
                suite_id,
                root_key_bytes@,
                local_identity_private_kem_sk@,
                first_message@,
                contact,
                dh_private,
                dh_public,
                id,
            );
            if r is Ok {
                let random = choose|random: Seq<u8>| random.len() == 16 && id == #[trigger] uuid_v4_text(random);
                assert(new_receiving_state::<P>(
                    suite_id,
                    root_key_bytes@,
                    local_identity_private_kem_sk@,
                    first_message@,
                    contact,
                    dh_private,
                    dh_public,
                    uuid_v4_text(random),
                ) == Ok::<SessionState, CryptoError>(r->Ok_0@));
            } else {
                assert(outcome == Err::<SessionState, CryptoError>(r->Err_0));
            }
        }
        r
    }

    /// Encrypts one message under a given nonce. On success the sending
    /// chain has advanced by one and the message is the one the state
    /// emits for the plaintext; on failure the session is unchanged.
    pub fn encrypt_with_nonce(&mut self, plaintext: &[u8], nonce: &[u8]) -> (r: Result<
        EncryptedRatchetMessage,
        CryptoError,
    >)
        ensures
            match encrypt_step::<P>(old(self)@, plaintext@, nonce@) {
                Ok((state, message)) => r matches Ok(m) && m@ == message && final(self)@ == state && emitted_by::<P>(
                    old(self)@,
                    plaintext@,
                    m@,
                ),
                Err(e) => r matches Err(f) && f == e && final(self)@ == old(self)@,
            },
            r matches Ok(m) ==> m@.suite_id == P::spec_suite_id(),
    {
        proof {
            use_type_invariant(&*self);
        }
        let (message_key, next_chain_key) = secret_kdf_ck::<P>(&self.sending_chain_key)?;
        let dh_public_key = match to_array_32(self.dh_ratchet_public.as_slice()) {
            Some(key) => key,
            None => {
                return Err(CryptoError::InvalidInput);
            },
        };
        if self.sending_chain_length == u32::MAX {
            return Err(CryptoError::InvalidInput);
        }
        let ciphertext = P::aead_encrypt(message_key.as_vec(), nonce, plaintext, None)?;
        let message_number = self.sending_chain_length;
        self.sending_chain_key = next_chain_key;
        self.sending_chain_length = message_number + 1;
        Ok(
            EncryptedRatchetMessage {
                dh_public_key,
                message_number,
                ciphertext,
                nonce: slice_to_vec(nonce),
                previous_chain_length: self.previous_sending_length,
                suite_id: self.suite_id,
            },
        )
    }

    /// Encrypts one message under a fresh random nonce of 12 bytes. On
    /// success the message is the one the state emits for the plaintext
    /// under some nonce; on failure the session is unchanged.
    pub fn encrypt(&mut self, plaintext: &[u8]) -> (r: Result<EncryptedRatchetMessage, CryptoError>)
        ensures
            r matches Ok(m) ==> m@.nonce.len() == MESSAGE_NONCE_LEN && encrypt_step::<P>(
                old(self)@,
                plaintext@,
                m@.nonce,
            ) == Ok::<(SessionState, MessageView), CryptoError>((final(self)@, m@)) && emitted_by::<P>(
                old(self)@,
                plaintext@,
                m@,
            ),
            r matches Ok(m) ==> m@.suite_id == P::spec_suite_id(),
            r is Err ==> final(self)@ == old(self)@,
            r matches Err(e) ==> e == CryptoError::KeyDerivation || exists|nonce: Seq<u8>|
                nonce.len() == MESSAGE_NONCE_LEN && #[trigger] encrypt_step::<P>(old(self)@, plaintext@, nonce)
                    == Err::<(SessionState, MessageView), CryptoError>(e),
    {
        let nonce = match P::generate_nonce(MESSAGE_NONCE_LEN) {
            Ok(nonce) => nonce,
            Err(_) => {
                return Err(CryptoError::KeyDerivation);
            },
        };
        let r = self.encrypt_with_nonce(plaintext, nonce.as_slice());
        proof {
            if r is Err {
                assert(encrypt_step::<P>(old(self)@, plaintext@, nonce@) == Err::<
                    (SessionState, MessageView),
                    CryptoError,
                >(r->Err_0));
            }
        }
        r
    }

    /// Decrypts the ciphertext of a message under a message key.
    pub fn decrypt_with_key(&self, message_key: &Vec<u8>, encrypted: &EncryptedRatchetMessage) -> (r: Result<
        Vec<u8>,
        CryptoError,
    >)
        ensures
            crate::crypto::provider::bytes_result_view(r) == P::spec_aead_decrypt(
                message_key@,
                encrypted@.nonce,
                encrypted@.ciphertext,
                None,
            ),
    {
        P::aead_decrypt(message_key, encrypted.nonce.as_slice(), encrypted.ciphertext.as_slice(), None)
    }

    /// The keys of a DH-ratchet step towards a new remote ratchet key.
    fn derive_ratchet(&self, new_remote: &[u8], fresh_private: &SecretBytes, Ghost(fresh_public): Ghost<Seq<u8>>) -> (r:
        Result<RatchetKeys, CryptoError>)
        ensures
            match ratchet_step::<P>(self@, new_remote@, fresh_private@, fresh_public) {
                Ok(state) => r matches Ok(keys) && keys.root_key@ == state.root_key && keys.receiving_chain_key@
                    == state.receiving_chain_key && keys.sending_chain_key@ == state.sending_chain_key,
                Err(e) => r matches Err(f) && f == e,
            },
    {
        let dh_private = match &self.dh_ratchet_private {
            Some(key) => key,
            None => {
                return Err(CryptoError::InvalidInput);
            },
        };
        let dh_receive = secret_kem_decapsulate::<P>(dh_private.as_vec(), new_remote)?;
        let (root_key, receiving_chain_key) = secret_kdf_rk::<P>(&self.root_key, &dh_receive)?;
        let dh_send = secret_kem_decapsulate::<P>(fresh_private.as_vec(), new_remote)?;
        let (final_root_key, sending_chain_key) = secret_kdf_rk::<P>(&root_key, &dh_send)?;
        Ok(RatchetKeys { root_key: final_root_key, receiving_chain_key, sending_chain_key })
    }

    /// Puts the outcome of a DH-ratchet step in place.
    fn install_ratchet(&mut self, keys: RatchetKeys, new_remote: Vec<u8>, fresh_private: SecretBytes, fresh_public: Vec<u8>)
        ensures
            final(self)@ == (SessionState {
                root_key: keys.root_key@,
                sending_chain_key: keys.sending_chain_key@,
                sending_chain_length: 0,
                receiving_chain_key: keys.receiving_chain_key@,
                receiving_chain_length: 0,
                dh_ratchet_private: Some(fresh_private@),
                dh_ratchet_public: fresh_public@,
                remote_dh_public: Some(new_remote@),
                previous_sending_length: old(self)@.sending_chain_length,
                skipped: Map::empty(),
                ..old(self)@
            }),
    {
        proof {
            use_type_invariant(&*self);
        }
        let empty: HashMap<u32, SkippedKey> = HashMap::new();
        assert(table_view(empty@) =~= Map::empty());
        self.skipped = empty;
        self.receiving_chain_length = 0;
        self.previous_sending_length = self.sending_chain_length;
        self.root_key = keys.root_key;
        self.receiving_chain_key = keys.receiving_chain_key;
        self.sending_chain_key = keys.sending_chain_key;
        self.sending_chain_length = 0;
        self.dh_ratchet_private = Some(fresh_private);
        self.dh_ratchet_public = fresh_public;
        self.remote_dh_public = Some(new_remote);
    }

    /// Puts the outcome of advancing the receiving chain in place.
    fn install_advance(&mut self, keys: Vec<SkippedKey>, next_chain_key: SecretBytes, number: u32)
        requires
            old(self)@.receiving_chain_length <= number < u32::MAX,
            keys@.len() == number - old(self)@.receiving_chain_length,
            old(self)@.skipped.len() + keys@.len() <= MAX_SKIPPED_MESSAGES,
        ensures
            final(self)@ == (SessionState {
                receiving_chain_key: next_chain_key@,
                receiving_chain_length: (number + 1) as u32,
                skipped: with_skipped(old(self)@.skipped, old(self)@.receiving_chain_length, skipped_view(keys@)),
                ..old(self)@
            }),
    {
        proof {
            use_type_invariant(&*self);
        }
        let mut keys = keys;
        let ghost added = skipped_view(keys@);
        let ghost before = table_view(self.skipped@);
        let first = self.receiving_chain_length;
        let mut table: HashMap<u32, SkippedKey> = HashMap::new();
        assert(table_view(table@) =~= Map::empty());
        core::mem::swap(&mut self.skipped, &mut table);
        assert(before.dom() =~= table@.dom());
        assert(added.take(added.len() as int) =~= added);
        assert forall|k: u32| #[trigger] table@.contains_key(k) implies k < first && table@[k]@ == before[k] by {
            assert(before.contains_key(k));
        }
        while keys.len() > 0
            invariant
                first <= number < u32::MAX,
                added.len() == number - first,
                keys@.len() <= added.len(),
                skipped_view(keys@) == added.take(keys@.len() as int),
                forall|k: u32| before.contains_key(k) ==> k < first,
                forall|k: u32|
                    #[trigger] table@.contains_key(k) <==> before.contains_key(k) || first + keys@.len() <= k < first
                        + added.len(),
                forall|k: u32|
                    #[trigger] table@.contains_key(k) ==> table@[k]@ == if first <= k {
                        added[k - first]
                    } else {
                        before[k]
                    },
            decreases keys@.len(),
        {
            let ghost held = skipped_view(keys@);
            let place: usize = keys.len() - 1;
            let offset: u32 = place as u32;
            match keys.pop() {
                Some(entry) => {
                    assert(entry@ == held[place as int]);
                    assert(skipped_view(keys@) =~= added.take(place as int));
                    table.insert(first + offset, entry);
                },
                None => {},
            }
        }
        proof {
            let target = with_skipped(before, first, added);
            assert forall|k: u32| table_view(table@).contains_key(k) <==> target.contains_key(k) by {
                assert(table_view(table@).contains_key(k) == table@.contains_key(k));
            }
            assert forall|k: u32| table_view(table@).contains_key(k) implies table_view(table@)[k] == target[k] by {
                assert(table@.contains_key(k));
            }
            assert(table_view(table@) =~= target);
            lemma_with_skipped_len(before, first, added);
        }
        self.receiving_chain_key = next_chain_key;
        self.receiving_chain_length = number + 1;
        self.skipped = table;
    }

    /// Takes a DH-ratchet step towards a new remote ratchet key with a
    /// given fresh key pair (private key first). On failure the session is
    /// unchanged.
    pub fn perform_dh_ratchet_with_keys(&mut self, new_remote_dh: &Vec<u8>, fresh_keys: (Vec<u8>, Vec<u8>)) -> (r:
        Result<(), CryptoError>)
        ensures
            match ratchet_step::<P>(old(self)@, new_remote_dh@, fresh_keys.0@, fresh_keys.1@) {
                Ok(state) => r is Ok && final(self)@ == state,
                Err(e) => r matches Err(f) && f == e && final(self)@ == old(self)@,
            },
    {
        let fresh_private = SecretBytes::new(fresh_keys.0);
        let fresh_public = fresh_keys.1;
        let keys = self.derive_ratchet(new_remote_dh.as_slice(), &fresh_private, Ghost(fresh_public@))?;
        self.install_ratchet(keys, new_remote_dh.clone(), fresh_private, fresh_public);
        Ok(())
    }

    /// Takes a DH-ratchet step towards a new remote ratchet key with a
    /// fresh key pair of the suite. On failure the session is unchanged.
    pub fn perform_dh_ratchet(&mut self, new_remote_dh: &Vec<u8>) -> (r: Result<(), CryptoError>)
        ensures
            r is Ok ==> exists|fresh_private: Seq<u8>, fresh_public: Seq<u8>|
                P::spec_kem_public(fresh_private) == Ok::<Seq<u8>, CryptoError>(fresh_public)
                    && #[trigger] ratchet_step::<P>(old(self)@, new_remote_dh@, fresh_private, fresh_public) == Ok::<
                    SessionState,
                    CryptoError,
                >(final(self)@),
            r is Err ==> final(self)@ == old(self)@,
            r matches Err(e) ==> e == CryptoError::KeyDerivation || exists|
                fresh_private: Seq<u8>,
                fresh_public: Seq<u8>,
            |
                #[trigger] ratchet_step::<P>(old(self)@, new_remote_dh@, fresh_private, fresh_public) == Err::<
                    SessionState,
                    CryptoError,
                >(e),
    {
        let fresh_keys = P::generate_kem_keys()?;
        let ghost fresh_private = fresh_keys.0@;
        let ghost fresh_public = fresh_keys.1@;
        let r = self.perform_dh_ratchet_with_keys(new_remote_dh, fresh_keys);
        proof {
            if r is Ok {
                assert(ratchet_step::<P>(old(self)@, new_remote_dh@, fresh_private, fresh_public) == Ok::<
                    SessionState,
                    CryptoError,
                >(final(self)@));
            } else {
                assert(ratchet_step::<P>(old(self)@, new_remote_dh@, fresh_private, fresh_public) == Err::<
                    SessionState,
                    CryptoError,
                >(r->Err_0));
            }
        }
        r
    }

    /// Decrypts one message at a given time, with a given fresh key pair
    /// (private key first) for the DH-ratchet step, should the message ask
    /// for one. On success the session is in the next state; on failure it
    /// is unchanged.
    pub fn decrypt_with_keys(&mut self, encrypted: &EncryptedRatchetMessage, now: u64, fresh_keys: (Vec<u8>, Vec<u8>)) -> (r:
        Result<Vec<u8>, CryptoError>)
        ensures
            match decrypt_step::<P>(old(self)@, encrypted@, now, fresh_keys.0@, fresh_keys.1@) {
                Ok((state, plaintext)) => r matches Ok(p) && p@ == plaintext && final(self)@ == state,
                Err(e) => r matches Err(f) && f == e && final(self)@ == old(self)@,
            },
    {
        proof {
            use_type_invariant(&*self);
            assert(table_view(self.skipped@).dom() =~= self.skipped@.dom());
        }
        let fresh_private = SecretBytes::new(fresh_keys.0);
        let fresh_public = fresh_keys.1;
        if encrypted.suite_id != self.suite_id {
            return Err(CryptoError::SuiteMismatch);
        }
        let number = encrypted.message_number;
        let remote = Self::bytes_to_kem_public_key(slice_to_vec(encrypted.dh_public_key.as_slice()));
        let same_remote = match &self.remote_dh_public {
            Some(current) => bytes_equal(current.as_slice(), remote.as_slice()),
            None => false,
        };
        assert(same_remote == !needs_ratchet(self@, encrypted@));
        if !same_remote {
            let ratchet = self.derive_ratchet(remote.as_slice(), &fresh_private, Ghost(fresh_public@))?;
            let ghost ratcheted = ratchet_step::<P>(self@, remote@, fresh_private@, fresh_public@)->Ok_0;
            assert(!has_skipped(ratcheted.skipped, number));
            let (keys, next_chain_key, plaintext) = advance_receiving_chain::<P>(
                &ratchet.receiving_chain_key,
                0,
                0,
                encrypted,
                now,
            )?;
            proof {
                lemma_skip_message_keys_numbers::<P>(ratchet.receiving_chain_key@, 0, number as nat, now);
            }
            self.install_ratchet(ratchet, remote, fresh_private, fresh_public);
            self.install_advance(keys, next_chain_key, number);
            assert(final(self)@.skipped =~= with_skipped(ratcheted.skipped, 0, skipped_view(keys@)));
            Ok(plaintext)
        } else {
            match self.skipped.get(&number) {
                Some(entry) => {
                    let plaintext = P::aead_decrypt(
                        &entry.key,
                        encrypted.nonce.as_slice(),
                        encrypted.ciphertext.as_slice(),
                        None,
                    )?;
                    let ghost before = table_view(self.skipped@);
                    let mut table: HashMap<u32, SkippedKey> = HashMap::new();
                    assert(table_view(table@) =~= Map::empty());
                    core::mem::swap(&mut self.skipped, &mut table);
                    table.remove(&number);
                    assert(table_view(table@) =~= before.remove(number));
                    self.skipped = table;
                    Ok(plaintext)
                },
                None => {
                    let (keys, next_chain_key, plaintext) = advance_receiving_chain::<P>(
                        &self.receiving_chain_key,
                        self.receiving_chain_length,
                        self.skipped.len(),
                        encrypted,
                        now,
                    )?;
                    proof {
                        lemma_skip_message_keys_numbers::<P>(
                            self.receiving_chain_key@,
                            self.receiving_chain_length,
                            (number - self.receiving_chain_length) as nat,
                            now,
                        );
                    }
                    self.install_advance(keys, next_chain_key, number);
                    Ok(plaintext)
                },
            }
        }
    }

    /// Decrypts one message now. A message that asks for no DH-ratchet
    /// step is decrypted as the state and the time decide, and nothing
    /// else. A DH-ratchet step, where the message asks for one, takes a
    /// fresh key pair of the suite: on success the session is in the next
    /// state for that time and key pair. On failure the session is
    /// unchanged. A message of another suite is refused with
    /// `SuiteMismatch` whatever else holds of it.
    pub fn decrypt(&mut self, encrypted: &EncryptedRatchetMessage) -> (r: Result<Vec<u8>, CryptoError>)
        ensures
            !needs_ratchet(old(self)@, encrypted@) ==> decrypted_on_chain::<P>(
                old(self)@,
                final(self)@,
                encrypted@,
                crate::crypto::provider::bytes_result_view(r),
            ),
            r matches Ok(plaintext) ==> exists|now: u64, fresh_private: Seq<u8>, fresh_public: Seq<u8>|
                (needs_ratchet(old(self)@, encrypted@) ==> P::spec_kem_public(fresh_private) == Ok::<
                    Seq<u8>,
                    CryptoError,
                >(fresh_public)) && #[trigger] decrypt_step::<P>(
                    old(self)@,
                    encrypted@,
                    now,
                    fresh_private,
                    fresh_public,
                ) == Ok::<(SessionState, Seq<u8>), CryptoError>((final(self)@, plaintext@)),
            r is Err ==> final(self)@ == old(self)@,
            encrypted@.suite_id != old(self)@.suite_id ==> (r matches Err(e) && e == CryptoError::SuiteMismatch),
            r matches Err(e) ==> e == CryptoError::KeyDerivation || exists|
                now: u64,
                fresh_private: Seq<u8>,
                fresh_public: Seq<u8>,
            |
                #[trigger] decrypt_step::<P>(old(self)@, encrypted@, now, fresh_private, fresh_public) == Err::<
                    (SessionState, Seq<u8>),
                    CryptoError,
                >(e),
    {
        if encrypted.suite_id != self.suite_id {
            assert(decrypt_step::<P>(old(self)@, encrypted@, 0, Seq::empty(), Seq::empty()) == Err::<
                (SessionState, Seq<u8>),
                CryptoError,
            >(CryptoError::SuiteMismatch));
            return Err(CryptoError::SuiteMismatch);
        }
        let remote = slice_to_vec(encrypted.dh_public_key.as_slice());
        let same_remote = match &self.remote_dh_public {
            Some(current) => bytes_equal(current.as_slice(), remote.as_slice()),
            None => false,
        };
        let fresh_keys = if same_remote {
            (Vec::new(), Vec::new())
        } else {
            P::generate_kem_keys()?
        };
        let time = now();
        let ghost fresh_private = fresh_keys.0@;
        let ghost fresh_public = fresh_keys.1@;
        let r = self.decrypt_with_keys(encrypted, time, fresh_keys);
        proof {
            let outcome = decrypt_step::<P>(old(self)@, encrypted@, time, fresh_private, fresh_public);
            if same_remote {
                assert(fresh_private =~= Seq::empty());
                assert(fresh_public =~= Seq::empty());
                assert(outcome == decrypt_step::<P>(old(self)@, encrypted@, time, Seq::empty(), Seq::empty()));
            }
            if r is Ok {
                assert(outcome == Ok::<(SessionState, Seq<u8>), CryptoError>((final(self)@, r->Ok_0@)));
            } else {
                assert(outcome == Err::<(SessionState, Seq<u8>), CryptoError>(r->Err_0));
            }
        }
        r
    }

    /// Evicts the skipped message keys that have expired at the time
    /// `now`, and returns how many there were.
    pub fn evict_expired_skipped_keys_at(&mut self, now: u64) -> (evicted: usize)
        ensures
            final(self)@ == (SessionState { skipped: unexpired_keys(old(self)@.skipped, now), ..old(self)@ }),
            evicted == old(self)@.skipped.len() - final(self)@.skipped.len(),
    {
        proof {
            use_type_invariant(&*self);
        }
        let mut table: HashMap<u32, SkippedKey> = HashMap::new();
        assert(table_view(table@) =~= Map::empty());
        core::mem::swap(&mut self.skipped, &mut table);
        let ghost whole = table_view(table@);
        assert(whole.dom() =~= table@.dom());
        let stored = table.len();
        drop_expired(&mut table, now);
        proof {
            let kept = table_view(table@);
            assert(kept.dom() =~= table@.dom());
            assert(kept.dom().subset_of(whole.dom()));
            vstd::set_lib::lemma_len_subset(kept.dom(), whole.dom());
        }
        let evicted = stored - table.len();
        self.skipped = table;
        evicted
    }

    /// Evicts the skipped message keys that have expired now, and returns
    /// how many there were.
    pub fn evict_expired_skipped_keys(&mut self) -> (evicted: usize)
        ensures
            exists|time: u64|
                final(self)@ == (SessionState {
                    skipped: #[trigger] unexpired_keys(old(self)@.skipped, time),
                    ..old(self)@
                }),
            evicted == old(self)@.skipped.len() - final(self)@.skipped.len(),
    {
        let time = now();
        let evicted = self.evict_expired_skipped_keys_at(time);
        assert(final(self)@ == (SessionState { skipped: unexpired_keys(old(self)@.skipped, time), ..old(self)@ }));
        evicted
    }

    /// The snapshot of the session: every field as it is.
    pub fn to_serializable(&self) -> (snapshot: SerializableSession)
        ensures
            snapshot@ == snapshot_of(self@),
            snapshot@.suite_id == P::spec_suite_id(),
            restored_state::<P>(snapshot@) == Ok::<SessionState, CryptoError>(self@),
    {
        proof {
            use_type_invariant(self);
            assert(merged_skipped(snapshot_of(self@).skipped_message_keys, snapshot_of(self@).skipped_key_timestamps)
                =~= self@.skipped);
        }
        let mut skipped_message_keys: HashMap<u32, Vec<u8>> = HashMap::new();
        let mut skipped_key_timestamps: HashMap<u32, u64> = HashMap::new();
        let ghost table = self.skipped@;
        for number in it: self.skipped.keys()
            invariant
                table == self.skipped@,
                it.seq().unref().to_set() == table.dom(),
                forall|k: u32|
                    #[trigger] skipped_message_keys@.contains_key(k) ==> table.contains_key(k)
                        && skipped_message_keys@[k]@ == table[k].key@,
                forall|k: u32|
                    #[trigger] skipped_key_timestamps@.contains_key(k) ==> table.contains_key(k)
                        && skipped_key_timestamps@[k] == table[k].stored_at,
                forall|j: int|
                    0 <= j < it.index() ==> skipped_message_keys@.contains_key(*(#[trigger] it.seq()[j]))
                        && skipped_key_timestamps@.contains_key(*it.seq()[j]),
                it.index() == it.seq().len() ==> forall|k: u32|
                    table.contains_key(k) ==> skipped_message_keys@.contains_key(k)
                        && skipped_key_timestamps@.contains_key(k),
        {
            assert(it.seq().unref().contains(*number));
            assert(table.dom().contains(*number));
            match self.skipped.get(number) {
                Some(entry) => {
                    skipped_message_keys.insert(*number, entry.key.clone());
                    skipped_key_timestamps.insert(*number, entry.stored_at);
                },
                None => {},
            }
            assert forall|k: u32|
                it.index() + 1 == it.seq().len() && table.contains_key(k) implies skipped_message_keys@.contains_key(k)
                && skipped_key_timestamps@.contains_key(k) by {
                assert(it.seq().unref().to_set().contains(k));
                assert(it.seq().unref().contains(k));
                let j = it.seq().unref().index_of(k);
                assert(it.seq().unref()[j] == k);
                assert(*it.seq()[j] == k);
            }
        }
        let snapshot = SerializableSession {
            suite_id: self.suite_id,
            root_key: self.root_key.to_vec(),
            sending_chain_key: self.sending_chain_key.to_vec(),
            sending_chain_length: self.sending_chain_length,
            receiving_chain_key: self.receiving_chain_key.to_vec(),
            receiving_chain_length: self.receiving_chain_length,
            dh_ratchet_private: optional_secret_to_vec(&self.dh_ratchet_private),
            dh_ratchet_public: self.dh_ratchet_public.clone(),
            remote_dh_public: clone_optional_bytes(&self.remote_dh_public),
            previous_sending_length: self.previous_sending_length,
            skipped_message_keys,
            skipped_key_timestamps,
            session_id: self.session_id.clone(),
            contact_id: self.contact_id.clone(),
        };
        assert(snapshot@.skipped_message_keys =~= snapshot_of(self@).skipped_message_keys);
        assert(snapshot@.skipped_key_timestamps =~= snapshot_of(self@).skipped_key_timestamps);
        snapshot
    }

    /// An AEAD key of the suite from the bytes it was stored as.
    pub fn bytes_to_aead_key(bytes: Vec<u8>) -> (key: SecretBytes)
        ensures
            key@ == bytes@,
    {
        SecretBytes::new(P::aead_key_from_bytes(bytes))
    }

    /// A KEM public key of the suite from the bytes it was stored or sent
    /// as.
    pub fn bytes_to_kem_public_key(bytes: Vec<u8>) -> (key: Vec<u8>)
        ensures
            key@ == bytes@,
    {
        P::kem_public_key_from_bytes(bytes)
    }

    /// A KEM private key of the suite from the bytes it was stored as.
    pub fn bytes_to_kem_private_key(bytes: Vec<u8>) -> (key: SecretBytes)
        ensures
            key@ == bytes@,
    {
        SecretBytes::new(P::kem_private_key_from_bytes(bytes))
    }

    /// The session a snapshot restores to: every field as the snapshot
    /// has it, the ratchet private key included.
    pub fn from_serializable(data: SerializableSession) -> (r: Result<Self, CryptoError>)
        ensures
            match restored_state::<P>(data@) {
                Ok(state) => r matches Ok(session) && session@ == state,
                Err(e) => r matches Err(f) && f == e,
            },
    {
        if data.suite_id != P::suite_id() {
            return Err(CryptoError::SuiteMismatch);
        }
        let skipped = match table_from_snapshot(
            &data.skipped_message_keys,
            &data.skipped_key_timestamps,
            data.receiving_chain_length,
        ) {
            Some(table) => table,
            None => {
                return Err(CryptoError::Serialization);
            },
        };
        Ok(
            DoubleRatchetSession {
                suite_id: data.suite_id,
                root_key: Self::bytes_to_aead_key(data.root_key),
                sending_chain_key: Self::bytes_to_aead_key(data.sending_chain_key),
                sending_chain_length: data.sending_chain_length,
                receiving_chain_key: Self::bytes_to_aead_key(data.receiving_chain_key),
                receiving_chain_length: data.receiving_chain_length,
                dh_ratchet_private: match data.dh_ratchet_private {
                    Some(bytes) => Some(Self::bytes_to_kem_private_key(bytes)),
                    None => None,
                },
                dh_ratchet_public: Self::bytes_to_kem_public_key(data.dh_ratchet_public),
                remote_dh_public: match data.remote_dh_public {
                    Some(bytes) => Some(Self::bytes_to_kem_public_key(bytes)),
                    None => None,
                },
                previous_sending_length: data.previous_sending_length,
                skipped,
                session_id: data.session_id,
                contact_id: data.contact_id,
                _phantom: PhantomData,
            },
        )
    }
}

} // verus!
