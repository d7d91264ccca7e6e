//! What holds of every session, proved from the definitions of its
//! operations.

use vstd::prelude::*;
use crate::crypto::double_ratchet::{
    decrypt_step,
    emitted_by,
    encrypt_step,
    has_skipped,
    lemma_skip_message_keys_numbers,
    lemma_with_skipped_len,
    needs_ratchet,
    new_receiving_state,
    new_sending_state,
    ratchet_step,
    receive_step,
    restored_state,
    skip_message_keys,
    snapshot_of,
    with_skipped,
    MessageView,
    SessionState,
    SkippedKeyView,
    MAX_SKIPPED_MESSAGES,
};
use crate::crypto::provider::CryptoProvider;
use crate::error::CryptoError;
use crate::SuiteID;

verus! {

/// Whether a receiving state is the counterpart of a sending state: it is
/// of the same suite, knows the sender's ratchet public key, and its
/// receiving chain stands where the sender's sending chain stands.
pub open spec fn is_counterpart(sender: SessionState, receiver: SessionState) -> bool {
    &&& receiver.suite_id == sender.suite_id
    &&& receiver.remote_dh_public == Some(sender.dh_ratchet_public)
    &&& receiver.receiving_chain_key == sender.sending_chain_key
    &&& receiver.receiving_chain_length == sender.sending_chain_length
}

/// Encryption lengthens the sending chain by exactly one and changes
/// nothing else of the state but the chain key.
pub proof fn lemma_encrypt_advances_sending_chain<P: CryptoProvider>(
    state: SessionState,
    plaintext: Seq<u8>,
    nonce: Seq<u8>,
)
    ensures
        encrypt_step::<P>(state, plaintext, nonce) matches Ok(next) ==> {
            &&& next.0.sending_chain_length == state.sending_chain_length + 1
            &&& next.0 == SessionState {
                sending_chain_key: next.0.sending_chain_key,
                sending_chain_length: next.0.sending_chain_length,
                ..state
            }
            &&& next.1.message_number == state.sending_chain_length
        },
{
}

/// Decryption leaves the sending chain as it is, or, where the message
/// made the session take a DH-ratchet step, starts a new sending chain of
/// length 0 and remembers the length of the old one. Without such a step
/// the receiving chain does not get shorter.
pub proof fn lemma_decrypt_keeps_or_resets_sending_chain<P: CryptoProvider>(
    state: SessionState,
    message: MessageView,
    now: u64,
    fresh_private: Seq<u8>,
    fresh_public: Seq<u8>,
)
    ensures
        decrypt_step::<P>(state, message, now, fresh_private, fresh_public) matches Ok(next) ==> {
            if needs_ratchet(state, message) {
                &&& next.0.sending_chain_length == 0
                &&& next.0.previous_sending_length == state.sending_chain_length
                &&& next.0.dh_ratchet_public == fresh_public
            } else {
                &&& next.0.sending_chain_length == state.sending_chain_length
                &&& next.0.sending_chain_key == state.sending_chain_key
                &&& next.0.previous_sending_length == state.previous_sending_length
                &&& next.0.receiving_chain_length >= state.receiving_chain_length
                &&& next.0.root_key == state.root_key
            }
        },
{
}

/// A DH-ratchet step starts both chains anew.
pub proof fn lemma_ratchet_resets_chains<P: CryptoProvider>(
    state: SessionState,
    new_remote: Seq<u8>,
    fresh_private: Seq<u8>,
    fresh_public: Seq<u8>,
)
    ensures
        ratchet_step::<P>(state, new_remote, fresh_private, fresh_public) matches Ok(next) ==> {
            &&& next.sending_chain_length == 0
            &&& next.receiving_chain_length == 0
            &&& next.previous_sending_length == state.sending_chain_length
            &&& next.remote_dh_public == Some(new_remote)
            &&& next.skipped.len() == 0
        },
{
}

/// The states in which sessions start are well formed.
pub proof fn lemma_new_states_well_formed<P: CryptoProvider>(
    suite_id: SuiteID,
    seed: Seq<u8>,
    remote_identity_public: Seq<u8>,
    local_identity_private: Seq<u8>,
    first_message: MessageView,
    contact_id: Seq<char>,
    dh_private: Seq<u8>,
    dh_public: Seq<u8>,
    session_id: Seq<char>,
)
    ensures
        new_sending_state::<P>(
            suite_id,
            seed,
            remote_identity_public,
            local_identity_private,
            contact_id,
            dh_private,
            dh_public,
            session_id,
        ) matches Ok(state) ==> state.well_formed() && state.of_suite::<P>() && state.skipped.len() == 0,
        new_receiving_state::<P>(
            suite_id,
            seed,
            local_identity_private,
            first_message,
            contact_id,
            dh_private,
            dh_public,
            session_id,
        ) matches Ok(state) ==> state.well_formed() && state.of_suite::<P>() && state.skipped.len() == 0,
{
}

/// Every operation keeps a well-formed state well formed: the table of
/// skipped keys never holds more than [`MAX_SKIPPED_MESSAGES`] keys.
pub proof fn lemma_steps_keep_well_formed<P: CryptoProvider>(
    state: SessionState,
    plaintext: Seq<u8>,
    nonce: Seq<u8>,
    message: MessageView,
    now: u64,
    new_remote: Seq<u8>,
    fresh_private: Seq<u8>,
    fresh_public: Seq<u8>,
)
    requires
        state.well_formed(),
    ensures
        encrypt_step::<P>(state, plaintext, nonce) matches Ok(next) ==> next.0.well_formed(),
        ratchet_step::<P>(state, new_remote, fresh_private, fresh_public) matches Ok(next) ==> next.well_formed(),
        decrypt_step::<P>(state, message, now, fresh_private, fresh_public) matches Ok(next) ==> next.0.well_formed()
            && next.0.skipped.len() <= MAX_SKIPPED_MESSAGES,
{
    if decrypt_step::<P>(state, message, now, fresh_private, fresh_public) is Ok {
        if needs_ratchet(state, message) {
            let ratcheted = ratchet_step::<P>(state, message.dh_public_key, fresh_private, fresh_public)->Ok_0;
            lemma_receive_keeps_well_formed::<P>(ratcheted, message, now);
        } else {
            lemma_receive_keeps_well_formed::<P>(state, message, now);
        }
    }
}

/// Receiving keeps a well-formed state well formed, and afterwards no key
/// is stored for the message received.
pub proof fn lemma_receive_keeps_well_formed<P: CryptoProvider>(state: SessionState, message: MessageView, now: u64)
    requires
        state.well_formed(),
    ensures
        receive_step::<P>(state, message, now) matches Ok(next) ==> {
            &&& next.0.well_formed()
            &&& !has_skipped(next.0.skipped, message.message_number)
            &&& message.message_number < next.0.receiving_chain_length
            &&& next.0.remote_dh_public == state.remote_dh_public
            &&& next.0.suite_id == state.suite_id
        },
{
    let number = message.message_number;
    if receive_step::<P>(state, message, now) is Ok {
        let next = receive_step::<P>(state, message, now)->Ok_0.0;
        if has_skipped(state.skipped, number) {
            assert(next.skipped == state.skipped.remove(number));
        } else {
            let count = (number - state.receiving_chain_length) as nat;
            lemma_skip_message_keys_numbers::<P>(state.receiving_chain_key, state.receiving_chain_length, count, now);
            let keys = skip_message_keys::<P>(state.receiving_chain_key, state.receiving_chain_length, count, now)->Ok_0.0;
            assert(next.skipped == with_skipped(state.skipped, state.receiving_chain_length, keys));
            lemma_with_skipped_len(state.skipped, state.receiving_chain_length, keys);
        }
    }
}

/// The suite of a session never changes, and every message it emits
/// carries it, as does its snapshot.
pub proof fn lemma_suite_is_fixed<P: CryptoProvider>(
    state: SessionState,
    plaintext: Seq<u8>,
    nonce: Seq<u8>,
    message: MessageView,
    now: u64,
    new_remote: Seq<u8>,
    fresh_private: Seq<u8>,
    fresh_public: Seq<u8>,
)
    ensures
        encrypt_step::<P>(state, plaintext, nonce) matches Ok(next) ==> next.0.suite_id == state.suite_id
            && next.1.suite_id == state.suite_id,
        ratchet_step::<P>(state, new_remote, fresh_private, fresh_public) matches Ok(next) ==> next.suite_id
            == state.suite_id,
        decrypt_step::<P>(state, message, now, fresh_private, fresh_public) matches Ok(next) ==> next.0.suite_id
            == state.suite_id && message.suite_id == state.suite_id,
        snapshot_of(state).suite_id == state.suite_id,
        restored_state::<P>(snapshot_of(state)) matches Ok(restored) ==> restored.suite_id == state.suite_id,
{
}

/// A message that a sender emits for a plaintext decrypts to that
/// plaintext on the sender's counterpart, which takes no DH-ratchet step
/// and stores no key for it; afterwards the two are counterparts again.
pub proof fn lemma_emitted_message_decrypts<P: CryptoProvider>(
    sender: SessionState,
    receiver: SessionState,
    plaintext: Seq<u8>,
    nonce: Seq<u8>,
    now: u64,
    fresh_private: Seq<u8>,
    fresh_public: Seq<u8>,
)
    requires
        receiver.well_formed(),
        is_counterpart(sender, receiver),
        encrypt_step::<P>(sender, plaintext, nonce) is Ok,
        emitted_by::<P>(sender, plaintext, encrypt_step::<P>(sender, plaintext, nonce)->Ok_0.1),
    ensures
        ({
            let sent = encrypt_step::<P>(sender, plaintext, nonce)->Ok_0;
            let received = decrypt_step::<P>(receiver, sent.1, now, fresh_private, fresh_public);
            &&& received matches Ok(next) && next.1 == plaintext && is_counterpart(sent.0, next.0) && next.0.skipped
                == receiver.skipped && next.0.well_formed()
        }),
{
    let sent = encrypt_step::<P>(sender, plaintext, nonce)->Ok_0;
    let message = sent.1;
    assert(!needs_ratchet(receiver, message));
    assert(!has_skipped(receiver.skipped, message.message_number));
    assert(skip_message_keys::<P>(receiver.receiving_chain_key, receiver.receiving_chain_length, 0, now) == Ok::<
        (Seq<SkippedKeyView>, Seq<u8>),
        CryptoError,
    >((Seq::empty(), receiver.receiving_chain_key)));
    let received = decrypt_step::<P>(receiver, message, now, fresh_private, fresh_public);
    assert(received is Ok);
    assert(received->Ok_0.0.skipped =~= receiver.skipped);
    lemma_receive_keeps_well_formed::<P>(receiver, message, now);
}

/// A message that was decrypted is refused when it comes again: its key
/// is gone.
pub proof fn lemma_replay_is_refused<P: CryptoProvider>(
    state: SessionState,
    message: MessageView,
    now: u64,
    fresh_private: Seq<u8>,
    fresh_public: Seq<u8>,
    later: u64,
    later_private: Seq<u8>,
    later_public: Seq<u8>,
)
    requires
        state.well_formed(),
        decrypt_step::<P>(state, message, now, fresh_private, fresh_public) is Ok,
    ensures
        decrypt_step::<P>(
            decrypt_step::<P>(state, message, now, fresh_private, fresh_public)->Ok_0.0,
            message,
            later,
            later_private,
            later_public,
        ) == Err::<(SessionState, Seq<u8>), CryptoError>(CryptoError::MessageKeyNotFound),
{
    if needs_ratchet(state, message) {
        let ratcheted = ratchet_step::<P>(state, message.dh_public_key, fresh_private, fresh_public)->Ok_0;
        lemma_receive_keeps_well_formed::<P>(ratcheted, message, now);
    } else {
        lemma_receive_keeps_well_formed::<P>(state, message, now);
    }
}

/// A message more than [`MAX_SKIPPED_MESSAGES`] ahead of what the table of
/// skipped keys still has room for is refused.
pub proof fn lemma_too_far_ahead_is_refused<P: CryptoProvider>(
    state: SessionState,
    message: MessageView,
    now: u64,
    fresh_private: Seq<u8>,
    fresh_public: Seq<u8>,
)
    requires
        message.suite_id == state.suite_id,
        !needs_ratchet(state, message),
        !has_skipped(state.skipped, message.message_number),
        message.message_number >= state.receiving_chain_length,
        state.skipped.len() + (message.message_number - state.receiving_chain_length) > MAX_SKIPPED_MESSAGES,
    ensures
        decrypt_step::<P>(state, message, now, fresh_private, fresh_public) == Err::<
            (SessionState, Seq<u8>),
            CryptoError,
        >(CryptoError::TooManySkipped),
{
}

/// A fresh initiator and a fresh responder are counterparts where they
/// start from the same seed and suite, the responder was made from a
/// message that carries the initiator's ratchet public key, and the two
/// identity keys give the same secret against that key.
pub proof fn lemma_fresh_sessions_are_counterparts<P: CryptoProvider>(
    suite_id: SuiteID,
    seed: Seq<u8>,
    remote_identity_public: Seq<u8>,
    initiator_identity_private: Seq<u8>,
    responder_identity_private: Seq<u8>,
    first_message: MessageView,
    initiator_contact: Seq<char>,
    responder_contact: Seq<char>,
    initiator_keys: (Seq<u8>, Seq<u8>),
    responder_keys: (Seq<u8>, Seq<u8>),
    initiator_session_id: Seq<char>,
    responder_session_id: Seq<char>,
)
    requires
        first_message.dh_public_key == initiator_keys.1,
        P::spec_kem_decapsulate(initiator_identity_private, initiator_keys.1) == P::spec_kem_decapsulate(
            responder_identity_private,
            initiator_keys.1,
        ),
    ensures
        ({
            let initiator = new_sending_state::<P>(
                suite_id,
                seed,
                remote_identity_public,
                initiator_identity_private,
                initiator_contact,
                initiator_keys.0,
                initiator_keys.1,
                initiator_session_id,
            );
            let responder = new_receiving_state::<P>(
                suite_id,
                seed,
                responder_identity_private,
                first_message,
                responder_contact,
                responder_keys.0,
                responder_keys.1,
                responder_session_id,
            );
            initiator is Ok && responder is Ok ==> is_counterpart(initiator->Ok_0, responder->Ok_0)
        }),
{
}

/// A snapshot restores to the state it was taken of, so that the restored
/// session encrypts as the session it was taken of does.
pub proof fn lemma_snapshot_round_trip<P: CryptoProvider>(state: SessionState, plaintext: Seq<u8>, nonce: Seq<u8>)
    requires
        state.well_formed(),
        state.of_suite::<P>(),
    ensures
        restored_state::<P>(snapshot_of(state)) == Ok::<SessionState, CryptoError>(state),
        encrypt_step::<P>(restored_state::<P>(snapshot_of(state))->Ok_0, plaintext, nonce) == encrypt_step::<P>(
            state,
            plaintext,
            nonce,
        ),
{
    let snapshot = snapshot_of(state);
    let merged = crate::crypto::double_ratchet::merged_skipped(
        snapshot.skipped_message_keys,
        snapshot.skipped_key_timestamps,
    );
    assert(merged =~= state.skipped);
}

/// The chain key that follows a chain key after a number of messages.
pub open spec fn chain_key_after<P: CryptoProvider>(chain_key: Seq<u8>, steps: nat) -> Result<Seq<u8>, CryptoError>
    decreases steps,
{
    if steps == 0 {
        Ok(chain_key)
    } else {
        match chain_key_after::<P>(chain_key, (steps - 1) as nat) {
            Err(e) => Err(e),
            Ok(previous) => match P::spec_kdf_ck(previous) {
                Err(e) => Err(e),
                Ok((_, next)) => Ok(next),
            },
        }
    }
}

/// The key of the message that comes a number of messages after a chain
/// key.
pub open spec fn message_key_at<P: CryptoProvider>(chain_key: Seq<u8>, index: nat) -> Result<Seq<u8>, CryptoError> {
    match chain_key_after::<P>(chain_key, index) {
        Err(e) => Err(e),
        Ok(at) => match P::spec_kdf_ck(at) {
            Err(e) => Err(e),
            Ok((message_key, _)) => Ok(message_key),
        },
    }
}

/// Whether a sending state is `lead` messages ahead of a receiving state
/// on the same chain: the two are of one suite, the receiver knows the
/// sender's ratchet public key, and the sender's chain stands `lead`
/// messages after the receiver's. A lead of 0 makes them counterparts.
pub open spec fn is_ahead_by<P: CryptoProvider>(sender: SessionState, receiver: SessionState, lead: nat) -> bool {
    &&& receiver.suite_id == sender.suite_id
    &&& receiver.remote_dh_public == Some(sender.dh_ratchet_public)
    &&& sender.sending_chain_length == receiver.receiving_chain_length + lead
    &&& chain_key_after::<P>(receiver.receiving_chain_key, lead) == Ok::<Seq<u8>, CryptoError>(
        sender.sending_chain_key,
    )
}

/// The keys stored for messages passed over are the keys of those
/// messages, and the chain key that follows them is the chain key after
/// as many messages.
pub proof fn lemma_skip_message_keys_content<P: CryptoProvider>(chain_key: Seq<u8>, first: u32, count: nat, now: u64)
    requires
        first + count <= u32::MAX,
    ensures
        skip_message_keys::<P>(chain_key, first, count, now) matches Ok(skipped) ==> {
            &&& chain_key_after::<P>(chain_key, count) == Ok::<Seq<u8>, CryptoError>(skipped.1)
            &&& skipped.0.len() == count
            &&& forall|i: int|
                0 <= i < count ==> #[trigger] skipped.0[i] == (SkippedKeyView {
                    key: message_key_at::<P>(chain_key, i as nat)->Ok_0,
                    stored_at: now,
                }) && message_key_at::<P>(chain_key, i as nat) is Ok
        },
        chain_key_after::<P>(chain_key, count) is Ok ==> skip_message_keys::<P>(chain_key, first, count, now) is Ok,
    decreases count,
{
    if count > 0 {
        lemma_skip_message_keys_content::<P>(chain_key, first, (count - 1) as nat, now);
        if skip_message_keys::<P>(chain_key, first, count, now) is Ok {
            let shorter = skip_message_keys::<P>(chain_key, first, (count - 1) as nat, now)->Ok_0;
            let skipped = skip_message_keys::<P>(chain_key, first, count, now)->Ok_0;
            assert forall|i: int| 0 <= i < count implies #[trigger] skipped.0[i] == (SkippedKeyView {
                key: message_key_at::<P>(chain_key, i as nat)->Ok_0,
                stored_at: now,
            }) && message_key_at::<P>(chain_key, i as nat) is Ok by {
                if i < count - 1 {
                    assert(skipped.0[i] == shorter.0[i]);
                }
            }
        }
    }
}

/// Encrypting moves a sender one message further ahead of a receiver.
pub proof fn lemma_encrypt_moves_ahead<P: CryptoProvider>(
    sender: SessionState,
    receiver: SessionState,
    lead: nat,
    plaintext: Seq<u8>,
    nonce: Seq<u8>,
)
    requires
        is_ahead_by::<P>(sender, receiver, lead),
        encrypt_step::<P>(sender, plaintext, nonce) is Ok,
    ensures
        is_ahead_by::<P>(encrypt_step::<P>(sender, plaintext, nonce)->Ok_0.0, receiver, lead + 1),
{
    assert(chain_key_after::<P>(receiver.receiving_chain_key, lead) == Ok::<Seq<u8>, CryptoError>(
        sender.sending_chain_key,
    ));
}

/// A message that a sender emits while it is ahead of a receiver decrypts
/// on the receiver, as long as the table of skipped keys has room for the
/// messages in between: their keys are stored under their numbers, beside
/// the keys that were stored before, and afterwards the receiver is the
/// counterpart of the sender that has emitted the message.
pub proof fn lemma_message_ahead_decrypts<P: CryptoProvider>(
    sender: SessionState,
    receiver: SessionState,
    lead: nat,
    plaintext: Seq<u8>,
    nonce: Seq<u8>,
    now: u64,
    fresh_private: Seq<u8>,
    fresh_public: Seq<u8>,
)
    requires
        receiver.well_formed(),
        is_ahead_by::<P>(sender, receiver, lead),
        receiver.skipped.len() + lead <= MAX_SKIPPED_MESSAGES,
        encrypt_step::<P>(sender, plaintext, nonce) is Ok,
        emitted_by::<P>(sender, plaintext, encrypt_step::<P>(sender, plaintext, nonce)->Ok_0.1),
    ensures
        ({
            let sent = encrypt_step::<P>(sender, plaintext, nonce)->Ok_0;
            let received = decrypt_step::<P>(receiver, sent.1, now, fresh_private, fresh_public);
            let next = received->Ok_0;
            &&& received is Ok
            &&& next.1 == plaintext
            &&& is_counterpart(sent.0, next.0)
            &&& next.0.well_formed()
            &&& next.0.skipped.len() == receiver.skipped.len() + lead
            &&& receiver.skipped.submap_of(next.0.skipped)
            &&& forall|i: int|
                0 <= i < lead ==> next.0.skipped.contains_key((receiver.receiving_chain_length + i) as u32)
                    && #[trigger] next.0.skipped[(receiver.receiving_chain_length + i) as u32] == (SkippedKeyView {
                    key: message_key_at::<P>(receiver.receiving_chain_key, i as nat)->Ok_0,
                    stored_at: now,
                })
        }),
{
    let sent = encrypt_step::<P>(sender, plaintext, nonce)->Ok_0;
    let message = sent.1;
    let first = receiver.receiving_chain_length;
    assert(!needs_ratchet(receiver, message));
    assert(!has_skipped(receiver.skipped, message.message_number));
    lemma_skip_message_keys_content::<P>(receiver.receiving_chain_key, first, lead, now);
    let skipped = skip_message_keys::<P>(receiver.receiving_chain_key, first, lead, now);
    assert(skipped is Ok);
    assert(skipped->Ok_0.1 == sender.sending_chain_key);
    let received = decrypt_step::<P>(receiver, message, now, fresh_private, fresh_public);
    assert(received is Ok);
    lemma_receive_keeps_well_formed::<P>(receiver, message, now);
    let next = received->Ok_0.0;
    assert(next.skipped == with_skipped(receiver.skipped, first, skipped->Ok_0.0));
    lemma_with_skipped_len(receiver.skipped, first, skipped->Ok_0.0);
    assert forall|i: int| 0 <= i < lead implies next.skipped.contains_key((first + i) as u32)
        && #[trigger] next.skipped[(first + i) as u32] == (SkippedKeyView {
        key: message_key_at::<P>(receiver.receiving_chain_key, i as nat)->Ok_0,
        stored_at: now,
    }) by {
        assert(next.skipped[(first + i) as u32] == skipped->Ok_0.0[i]);
    }
}

/// A message whose key is stored decrypts with that key, which is then
/// removed; the chains stay as they are.
pub proof fn lemma_skipped_message_decrypts<P: CryptoProvider>(
    receiver: SessionState,
    message: MessageView,
    plaintext: Seq<u8>,
    now: u64,
    fresh_private: Seq<u8>,
    fresh_public: Seq<u8>,
)
    requires
        receiver.well_formed(),
        message.suite_id == receiver.suite_id,
        !needs_ratchet(receiver, message),
        receiver.skipped.contains_key(message.message_number),
        P::spec_aead_decrypt(
            receiver.skipped[message.message_number].key,
            message.nonce,
            message.ciphertext,
            None,
        ) == Ok::<Seq<u8>, CryptoError>(plaintext),
    ensures
        decrypt_step::<P>(receiver, message, now, fresh_private, fresh_public) == Ok::<
            (SessionState, Seq<u8>),
            CryptoError,
        >((SessionState { skipped: receiver.skipped.remove(message.message_number), ..receiver }, plaintext)),
{
}

/// A message that a sender emitted while it was ahead of a receiver, and
/// that the receiver has since passed over, decrypts from the key that
/// was stored for it.
pub proof fn lemma_late_message_decrypts<P: CryptoProvider>(
    sender: SessionState,
    receiver: SessionState,
    lead: nat,
    later: SessionState,
    plaintext: Seq<u8>,
    nonce: Seq<u8>,
    now: u64,
    fresh_private: Seq<u8>,
    fresh_public: Seq<u8>,
)
    requires
        is_ahead_by::<P>(sender, receiver, lead),
        encrypt_step::<P>(sender, plaintext, nonce) is Ok,
        emitted_by::<P>(sender, plaintext, encrypt_step::<P>(sender, plaintext, nonce)->Ok_0.1),
        later.well_formed(),
        later.suite_id == receiver.suite_id,
        later.remote_dh_public == receiver.remote_dh_public,
        later.skipped.contains_key(sender.sending_chain_length),
        message_key_at::<P>(receiver.receiving_chain_key, lead) == Ok::<Seq<u8>, CryptoError>(
            later.skipped[sender.sending_chain_length].key,
        ),
    ensures
        decrypt_step::<P>(
            later,
            encrypt_step::<P>(sender, plaintext, nonce)->Ok_0.1,
            now,
            fresh_private,
            fresh_public,
        ) == Ok::<(SessionState, Seq<u8>), CryptoError>(
            (SessionState { skipped: later.skipped.remove(sender.sending_chain_length), ..later }, plaintext),
        ),
{
    let message = encrypt_step::<P>(sender, plaintext, nonce)->Ok_0.1;
    lemma_skipped_message_decrypts::<P>(later, message, plaintext, now, fresh_private, fresh_public);
}

/// The state in which a session receives a message: the state itself, or,
/// where the message asks for a DH-ratchet step, the state after the step
/// with the fresh key pair.
pub open spec fn receiving_state<P: CryptoProvider>(
    state: SessionState,
    message: MessageView,
    fresh_private: Seq<u8>,
    fresh_public: Seq<u8>,
) -> Result<SessionState, CryptoError> {
    if needs_ratchet(state, message) {
        ratchet_step::<P>(state, message.dh_public_key, fresh_private, fresh_public)
    } else {
        Ok(state)
    }
}

/// The key under which a state opens the message with a number: the key
/// stored for it, or else the key the receiving chain comes to. A message
/// behind the chain without a stored key has none.
pub open spec fn opening_key<P: CryptoProvider>(state: SessionState, number: u32) -> Result<Seq<u8>, CryptoError> {
    if has_skipped(state.skipped, number) {
        Ok(state.skipped[number].key)
    } else if number < state.receiving_chain_length {
        Err(CryptoError::MessageKeyNotFound)
    } else {
        message_key_at::<P>(state.receiving_chain_key, (number - state.receiving_chain_length) as nat)
    }
}

/// A message that decrypts is opened under its opening key. Where the
/// cipher refuses another ciphertext under that key and the nonce of the
/// message, the message with that ciphertext in place of its own fails as
/// the cipher does: no plaintext comes out, and the message as it was
/// still decrypts, for a failure leaves the state as it is.
pub proof fn lemma_refused_ciphertext_fails<P: CryptoProvider>(
    state: SessionState,
    message: MessageView,
    changed: Seq<u8>,
    refusal: CryptoError,
    now: u64,
    fresh_private: Seq<u8>,
    fresh_public: Seq<u8>,
)
    requires
        state.well_formed(),
        decrypt_step::<P>(state, message, now, fresh_private, fresh_public) is Ok,
        P::spec_aead_decrypt(
            opening_key::<P>(
                receiving_state::<P>(state, message, fresh_private, fresh_public)->Ok_0,
                message.message_number,
            )->Ok_0,
            message.nonce,
            changed,
            None,
        ) == Err::<Seq<u8>, CryptoError>(refusal),
    ensures
        ({
            let on = receiving_state::<P>(state, message, fresh_private, fresh_public);
            let key = opening_key::<P>(on->Ok_0, message.message_number);
            &&& on is Ok
            &&& key is Ok
            &&& P::spec_aead_decrypt(key->Ok_0, message.nonce, message.ciphertext, None) == Ok::<Seq<u8>, CryptoError>(
                decrypt_step::<P>(state, message, now, fresh_private, fresh_public)->Ok_0.1,
            )
            &&& decrypt_step::<P>(
                state,
                MessageView { ciphertext: changed, ..message },
                now,
                fresh_private,
                fresh_public,
            ) == Err::<(SessionState, Seq<u8>), CryptoError>(refusal)
        }),
{
    let on = receiving_state::<P>(state, message, fresh_private, fresh_public)->Ok_0;
    let number = message.message_number;
    let other = MessageView { ciphertext: changed, ..message };
    assert(needs_ratchet(state, other) == needs_ratchet(state, message));
    assert(receive_step::<P>(on, message, now) is Ok);
    if !has_skipped(on.skipped, number) {
        let count = (number - on.receiving_chain_length) as nat;
        lemma_skip_message_keys_content::<P>(on.receiving_chain_key, on.receiving_chain_length, count, now);
    }
}

/// Whether a session has taken its last DH-ratchet step towards a peer
/// as the peer stands now: its root key and its sending chain come from
/// the peer's root key and the secret between its own ratchet private key
/// and the peer's ratchet public key, and it has since sent `lead`
/// messages.
pub open spec fn replies_to<P: CryptoProvider>(
    replier: SessionState,
    replier_private: Seq<u8>,
    peer: SessionState,
    lead: nat,
) -> bool {
    &&& replier.suite_id == peer.suite_id
    &&& replier.dh_ratchet_private == Some(replier_private)
    &&& replier.sending_chain_length == lead
    &&& P::spec_kem_decapsulate(replier_private, peer.dh_ratchet_public) matches Ok(shared) && P::spec_kdf_rk(
        peer.root_key,
        shared,
    ) matches Ok(derived) && derived.0 == replier.root_key && chain_key_after::<P>(derived.1, lead) == Ok::<
        Seq<u8>,
        CryptoError,
    >(replier.sending_chain_key)
}

/// When a session receives the ratchet public key of a peer that has
/// replied to it, its DH-ratchet step brings it onto the peer's sending
/// chain, and it has then itself replied to the peer, provided the two
/// ratchet key pairs agree on their shared secret.
pub proof fn lemma_ratchet_follows_reply<P: CryptoProvider>(
    replier: SessionState,
    replier_private: Seq<u8>,
    receiver: SessionState,
    receiver_private: Seq<u8>,
    lead: nat,
    fresh_private: Seq<u8>,
    fresh_public: Seq<u8>,
)
    requires
        replies_to::<P>(replier, replier_private, receiver, lead),
        receiver.dh_ratchet_private == Some(receiver_private),
        P::spec_kem_decapsulate(receiver_private, replier.dh_ratchet_public) == P::spec_kem_decapsulate(
            replier_private,
            receiver.dh_ratchet_public,
        ),
        ratchet_step::<P>(receiver, replier.dh_ratchet_public, fresh_private, fresh_public) is Ok,
    ensures
        ({
            let ratcheted = ratchet_step::<P>(receiver, replier.dh_ratchet_public, fresh_private, fresh_public)->Ok_0;
            &&& is_ahead_by::<P>(replier, ratcheted, lead)
            &&& replies_to::<P>(ratcheted, fresh_private, replier, 0)
            &&& ratcheted.well_formed()
        }),
{
}

/// A fresh responder has replied to the fresh initiator whose first
/// message it was made from, where they start from the same seed and
/// suite and the two identity keys give the same secret against the
/// initiator's ratchet public key.
pub proof fn lemma_fresh_responder_replies<P: CryptoProvider>(
    suite_id: SuiteID,
    seed: Seq<u8>,
    remote_identity_public: Seq<u8>,
    initiator_identity_private: Seq<u8>,
    responder_identity_private: Seq<u8>,
    first_message: MessageView,
    initiator_contact: Seq<char>,
    responder_contact: Seq<char>,
    initiator_keys: (Seq<u8>, Seq<u8>),
    responder_keys: (Seq<u8>, Seq<u8>),
    initiator_session_id: Seq<char>,
    responder_session_id: Seq<char>,
)
    requires
        first_message.dh_public_key == initiator_keys.1,
        P::spec_kem_decapsulate(initiator_identity_private, initiator_keys.1) == P::spec_kem_decapsulate(
            responder_identity_private,
            initiator_keys.1,
        ),
    ensures
        ({
            let initiator = new_sending_state::<P>(
                suite_id,
                seed,
                remote_identity_public,
                initiator_identity_private,
                initiator_contact,
                initiator_keys.0,
                initiator_keys.1,
                initiator_session_id,
            );
            let responder = new_receiving_state::<P>(
                suite_id,
                seed,
                responder_identity_private,
                first_message,
                responder_contact,
                responder_keys.0,
                responder_keys.1,
                responder_session_id,
            );
            initiator is Ok && responder is Ok ==> replies_to::<P>(
                responder->Ok_0,
                responder_keys.0,
                initiator->Ok_0,
                0,
            )
        }),
{
}

/// Encrypting keeps a session a replier to its peer, one message on.
pub proof fn lemma_encrypt_keeps_reply<P: CryptoProvider>(
    replier: SessionState,
    replier_private: Seq<u8>,
    peer: SessionState,
    lead: nat,
    plaintext: Seq<u8>,
    nonce: Seq<u8>,
)
    requires
        replies_to::<P>(replier, replier_private, peer, lead),
        encrypt_step::<P>(replier, plaintext, nonce) is Ok,
    ensures
        replies_to::<P>(encrypt_step::<P>(replier, plaintext, nonce)->Ok_0.0, replier_private, peer, lead + 1),
{
    let shared = P::spec_kem_decapsulate(replier_private, peer.dh_ratchet_public)->Ok_0;
    let derived = P::spec_kdf_rk(peer.root_key, shared)->Ok_0;
    assert(chain_key_after::<P>(derived.1, lead) == Ok::<Seq<u8>, CryptoError>(replier.sending_chain_key));
}

} // verus!
