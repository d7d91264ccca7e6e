//! Sending and receiving through a client.

use vstd::prelude::*;
use vstd::utf8::{decode_utf8, encode_utf8, valid_utf8};
use crate::api::crypto::{decrypted_to_no_text, plaintext_to_text, text_of_outcome, text_result_view, KeyBundle};
use crate::crypto::client::{
    decrypted_by,
    encrypted_by,
    has_session_id,
    session_index,
    with_session,
    ClientCrypto,
    ClientState,
};
use crate::crypto::double_ratchet::{
    new_receiving_state,
    new_sending_state,
    decrypted_on_chain,
    needs_ratchet,
    is_new_receiving_state,
    is_new_sending_state,
    EncryptedRatchetMessage,
    MessageView,
    SessionState,
};
use crate::crypto::provider::{bytes_result_view, CryptoProvider};
use crate::error::CryptoError;
use crate::SuiteID;

verus! {

/// An encrypted message with the id of the session it belongs to.
#[derive(Debug, Clone)]
pub struct EncryptedMessage {
    pub session_id: String,
    pub ciphertext: Vec<u8>,
    pub dh_public_key: [u8; 32],
    pub nonce: Vec<u8>,
    pub message_number: u32,
    pub previous_chain_length: u32,
    pub suite_id: SuiteID,
}

impl EncryptedMessage {
    /// The message of the ratchet that this message carries.
    pub open spec fn ratchet_message(&self) -> MessageView {
        MessageView {
            dh_public_key: self.dh_public_key@,
            message_number: self.message_number,
            ciphertext: self.ciphertext@,
            nonce: self.nonce@,
            previous_chain_length: self.previous_chain_length,
            suite_id: self.suite_id,
        }
    }

    /// A message of the ratchet, for the session with the given id.
    pub fn for_session(session_id: String, msg: EncryptedRatchetMessage) -> (r: Self)
        ensures
            r.session_id == session_id,
            r.ratchet_message() == msg@,
    {
        EncryptedMessage {
            session_id,
            ciphertext: msg.ciphertext,
            dh_public_key: msg.dh_public_key,
            nonce: msg.nonce,
            message_number: msg.message_number,
            previous_chain_length: msg.previous_chain_length,
            suite_id: msg.suite_id,
        }
    }
}

impl From<EncryptedMessage> for EncryptedRatchetMessage {
    /// The message of the ratchet that a message carries.
    fn from(msg: EncryptedMessage) -> (r: Self)
        ensures
            r@ == msg.ratchet_message(),
    {
        EncryptedRatchetMessage {
            dh_public_key: msg.dh_public_key,
            message_number: msg.message_number,
            ciphertext: msg.ciphertext,
            nonce: msg.nonce,
            previous_chain_length: msg.previous_chain_length,
            suite_id: msg.suite_id,
        }
    }
}

impl vstd::std_specs::convert::FromSpecImpl<EncryptedMessage> for EncryptedRatchetMessage {
    open spec fn obeys_from_spec() -> bool {
        true
    }

    open spec fn from_spec(msg: EncryptedMessage) -> Self {
        EncryptedRatchetMessage {
            dh_public_key: msg.dh_public_key,
            message_number: msg.message_number,
            ciphertext: msg.ciphertext,
            nonce: msg.nonce,
            previous_chain_length: msg.previous_chain_length,
            suite_id: msg.suite_id,
        }
    }
}

/// Encrypts a text in the session of a client with the id. Without such
/// a session it fails with `SessionNotFound`. On success that session has
/// encrypted the bytes of the text to the message, which carries the id;
/// on failure the client is unchanged.
pub fn encrypt_message<P: CryptoProvider>(client: &mut ClientCrypto<P>, session_id: &str, plaintext: &str) -> (r: Result<
    EncryptedMessage,
    CryptoError,
>)
    ensures
        r is Err ==> (*final(client))@ == (*old(client))@,
        !has_session_id((*old(client))@.sessions, session_id@) ==> (r matches Err(e) && e
            == CryptoError::SessionNotFound),
        r matches Ok(message) ==> message.session_id@ == session_id@ && has_session_id(
            (*old(client))@.sessions,
            session_id@,
        ) && ({
            let i = session_index((*old(client))@.sessions, session_id@);
            &&& i < (*final(client))@.sessions.len()
            &&& encrypted_by::<P>(
                (*old(client))@.sessions[i].1,
                (*final(client))@.sessions[i].1,
                encode_utf8(plaintext@),
                message.ratchet_message(),
            )
        }),
{
    let encrypted = client.encrypt_ratchet_message(session_id, plaintext.as_bytes())?;
    Ok(EncryptedMessage::for_session(session_id.to_owned(), encrypted))
}

/// Decrypts a message in the session of a client with the id, to text.
/// Without such a session it fails with `SessionNotFound`, the client
/// unchanged. Where the message asks for no DH-ratchet step, the outcome
/// is what the state of the session and the time decide, read as text. A
/// plaintext that is no UTF-8 fails with `Serialization`, after the
/// session has decrypted the message: that is the one failure that changes
/// the client.
pub fn decrypt_message<P: CryptoProvider>(client: &mut ClientCrypto<P>, session_id: &str, encrypted: EncryptedMessage) -> (r:
    Result<String, CryptoError>)
    ensures
        has_session_id((*old(client))@.sessions, session_id@) ==> ({
            let i = session_index((*old(client))@.sessions, session_id@);
            &&& i < (*final(client))@.sessions.len()
            &&& (*final(client))@ == (ClientState {
                sessions: (*old(client))@.sessions.update(i, (session_id@, (*final(client))@.sessions[i].1)),
                ..(*old(client))@
            })
            &&& !needs_ratchet((*old(client))@.sessions[i].1, encrypted.ratchet_message()) ==> exists|
                outcome: Result<Seq<u8>, CryptoError>,
            |
                #[trigger] decrypted_on_chain::<P>(
                    (*old(client))@.sessions[i].1,
                    (*final(client))@.sessions[i].1,
                    encrypted.ratchet_message(),
                    outcome,
                ) && text_result_view(r) == text_of_outcome(outcome)
        }),
        !has_session_id((*old(client))@.sessions, session_id@) ==> (r matches Err(e) && e
            == CryptoError::SessionNotFound && (*final(client))@ == (*old(client))@),
        r matches Ok(text) ==> has_session_id((*old(client))@.sessions, session_id@) && ({
            let i = session_index((*old(client))@.sessions, session_id@);
            &&& i < (*final(client))@.sessions.len()
            &&& exists|plaintext: Seq<u8>|
                #[trigger] decrypted_by::<P>(
                    (*old(client))@.sessions[i].1,
                    (*final(client))@.sessions[i].1,
                    encrypted.ratchet_message(),
                    plaintext,
                ) && valid_utf8(plaintext) && text@ == decode_utf8(plaintext)
        }),
        r matches Err(e) ==> (*final(client))@ == (*old(client))@ || (e == CryptoError::Serialization
            && has_session_id((*old(client))@.sessions, session_id@) && ({
            let i = session_index((*old(client))@.sessions, session_id@);
            &&& i < (*final(client))@.sessions.len()
            &&& decrypted_to_no_text::<P>(
                (*old(client))@.sessions[i].1,
                (*final(client))@.sessions[i].1,
                encrypted.ratchet_message(),
            )
        })),
{
    let ghost carried = encrypted.ratchet_message();
    let ratchet_msg = EncryptedRatchetMessage::from(encrypted);
    let decrypted = client.decrypt_ratchet_message(session_id, &ratchet_msg);
    let ghost outcome = bytes_result_view(decrypted);
    let plaintext = decrypted?;
    let ghost bytes = plaintext@;
    let r = plaintext_to_text(plaintext);
    proof {
        assert(text_result_view(r) == text_of_outcome(outcome));
        let i = session_index((*old(client))@.sessions, session_id@);
        assert(decrypted_by::<P>((*old(client))@.sessions[i].1, (*final(client))@.sessions[i].1, carried, bytes));
    }
    r
}

/// Begins a session of a client with a contact, as the initiator, and
/// returns its id. On failure the client is unchanged; where the
/// handshake fails, it fails as the handshake does.
pub fn init_session<P: CryptoProvider>(client: &mut ClientCrypto<P>, contact_id: &str, remote_bundle: &KeyBundle) -> (r:
    Result<String, CryptoError>)
    ensures
        r is Err ==> (*final(client))@ == (*old(client))@,
        (*old(client))@.handshake::<P>(remote_bundle@) matches Err(e) ==> (r matches Err(f) && f == e),
        r matches Ok(id) ==> has_session_id((*final(client))@.sessions, id@),
        (*old(client))@.handshake::<P>(remote_bundle@) is Ok ==> (r matches Err(e) ==> e == CryptoError::KeyDerivation || exists|
            dh_private: Seq<u8>,
            dh_public: Seq<u8>,
            session_id: Seq<char>,
        |
            #[trigger] new_sending_state::<P>(
                remote_bundle@.suite_id,
                (*old(client))@.handshake::<P>(remote_bundle@)->Ok_0,
                remote_bundle@.identity_public,
                (*old(client))@.identity_key.0,
                contact_id@,
                dh_private,
                dh_public,
                session_id,
            ) == Err::<SessionState, CryptoError>(e)),
        r matches Ok(id) ==> (*old(client))@.handshake::<P>(remote_bundle@) is Ok && exists|session: SessionState|
            #[trigger] is_new_sending_state::<P>(
                session,
                remote_bundle@.suite_id,
                (*old(client))@.handshake::<P>(remote_bundle@)->Ok_0,
                remote_bundle@.identity_public,
                (*old(client))@.identity_key.0,
                contact_id@,
            ) && id@ == session.session_id && (*final(client))@ == (ClientState {
                sessions: with_session((*old(client))@.sessions, session),
                ..(*old(client))@
            }),
{
    let public_bundle = remote_bundle.to_public_bundle();
    let r = client.init_double_ratchet_session(contact_id, &public_bundle);
    proof {
        if r is Ok {
            let sessions = (*final(client))@.sessions;
            assert(sessions[sessions.len() - 1].0 == r->Ok_0@);
        }
    }
    r
}

/// Begins a session of a client with a contact, as the responder, from
/// the first message received, and returns its id. On failure the client
/// is unchanged; where the handshake fails, it fails as the handshake
/// does.
pub fn init_receiving_session<P: CryptoProvider>(
    client: &mut ClientCrypto<P>,
    contact_id: &str,
    remote_bundle: &KeyBundle,
    first_encrypted_msg: &EncryptedMessage,
) -> (r: Result<String, CryptoError>)
    ensures
        r is Err ==> (*final(client))@ == (*old(client))@,
        (*old(client))@.handshake::<P>(remote_bundle@) matches Err(e) ==> (r matches Err(f) && f == e),
        r matches Ok(id) ==> has_session_id((*final(client))@.sessions, id@),
        (*old(client))@.handshake::<P>(remote_bundle@) is Ok ==> (r matches Err(e) ==> e == CryptoError::KeyDerivation || exists|
            dh_private: Seq<u8>,
            dh_public: Seq<u8>,
            session_id: Seq<char>,
        |
            #[trigger] new_receiving_state::<P>(
                remote_bundle@.suite_id,
                (*old(client))@.handshake::<P>(remote_bundle@)->Ok_0,
                (*old(client))@.identity_key.0,
                first_encrypted_msg.ratchet_message(),
                contact_id@,
                dh_private,
                dh_public,
                session_id,
            ) == Err::<SessionState, CryptoError>(e)),
        r matches Ok(id) ==> (*old(client))@.handshake::<P>(remote_bundle@) is Ok && exists|session: SessionState|
            #[trigger] is_new_receiving_state::<P>(
                session,
                remote_bundle@.suite_id,
                (*old(client))@.handshake::<P>(remote_bundle@)->Ok_0,
                (*old(client))@.identity_key.0,
                first_encrypted_msg.ratchet_message(),
                contact_id@,
            ) && id@ == session.session_id && (*final(client))@ == (ClientState {
                sessions: with_session((*old(client))@.sessions, session),
                ..(*old(client))@
            }),
{
    let public_bundle = remote_bundle.to_public_bundle();
    let ratchet_msg = EncryptedRatchetMessage {
        dh_public_key: first_encrypted_msg.dh_public_key,
        message_number: first_encrypted_msg.message_number,
        ciphertext: first_encrypted_msg.ciphertext.clone(),
        nonce: first_encrypted_msg.nonce.clone(),
        previous_chain_length: first_encrypted_msg.previous_chain_length,
        suite_id: first_encrypted_msg.suite_id,
    };
    assert(ratchet_msg@ == first_encrypted_msg.ratchet_message());
    let r = client.init_receiving_session(contact_id, &public_bundle, &ratchet_msg);
    proof {
        if r is Ok {
            let sessions = (*final(client))@.sessions;
            assert(sessions[sessions.len() - 1].0 == r->Ok_0@);
        }
    }
    r
}

} // verus!
