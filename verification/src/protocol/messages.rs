//! The messages a client and the server exchange.

use vstd::prelude::*;

verus! {

/// An encrypted chat message on its way between two users.
#[derive(Debug, Clone)]
pub struct ChatMessage {
    /// The id of the message: a UUID.
    pub id: String,
    /// The id of the sender: a UUID.
    pub from: String,
    /// The id of the recipient: a UUID.
    pub to: String,
    /// The sender's ratchet public key: 32 bytes.
    pub ephemeral_public_key: Vec<u8>,
    /// The index of the message in the sender's chain.
    pub message_number: u32,
    /// The encrypted content, base64 encoded.
    pub content: String,
    /// When the message was sent, in seconds since the epoch.
    pub timestamp: i64,
}

/// The public keys a user registers with, each base64 encoded.
#[derive(Debug, Clone)]
pub struct RegistrationBundle {
    /// The identity public key: 44 characters.
    pub identity_public: String,
    /// The signed prekey: 44 characters.
    pub signed_prekey_public: String,
    /// The signature of the signed prekey: 88 characters.
    pub signature: String,
    /// The verifying key: 44 characters.
    pub verifying_key: String,
}

/// The public keys of a user, each base64 encoded.
#[derive(Debug, Clone)]
pub struct PublicKeyBundleData {
    /// The id of the user: a UUID.
    pub user_id: String,
    pub identity_public: String,
    pub signed_prekey_public: String,
    pub signature: String,
    pub verifying_key: String,
}

/// The server's word that a message arrived.
#[derive(Debug, Clone)]
pub struct AckData {
    pub message_id: String,
    /// The server's time, in seconds since the epoch.
    pub timestamp: i64,
}

/// What went wrong with a request.
#[derive(Debug, Clone)]
pub struct ErrorData {
    pub code: u32,
    pub message: String,
    /// The id of the request that failed, where it had one.
    pub request_id: Option<String>,
}

/// A message of the protocol.
#[derive(Debug, Clone)]
pub enum ProtocolMessage {
    Register { username: String, bundle: RegistrationBundle },
    Login { username: String },
    SendMessage(ChatMessage),
    ReceiveMessage(ChatMessage),
    Ack(AckData),
    Error(ErrorData),
    RequestKeyBundle { user_id: String },
    KeyBundleResponse(PublicKeyBundleData),
    Ping,
    Pong,
}

impl ProtocolMessage {
    /// An error message without the id of a request.
    pub fn error(code: u32, message: String) -> (r: Self)
        ensures
            r matches ProtocolMessage::Error(data) && data.code == code && data.message == message
                && data.request_id is None,
    {
        ProtocolMessage::Error(ErrorData { code, message, request_id: None })
    }

    /// An error message for the request with the given id.
    pub fn error_with_request_id(code: u32, message: String, request_id: String) -> (r: Self)
        ensures
            r matches ProtocolMessage::Error(data) && data.code == code && data.message == message
                && data.request_id == Some(request_id),
    {
        ProtocolMessage::Error(ErrorData { code, message, request_id: Some(request_id) })
    }
}

} // verus!
