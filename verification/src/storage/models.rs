//! The records a storage collaborator keeps.

use vstd::prelude::*;

verus! {

/// A message as it is stored.
#[derive(Debug, Clone)]
pub struct StoredMessage {
    pub id: String,
    pub from: String,
    pub to: String,
    /// The encrypted content.
    pub content: Vec<u8>,
    /// When the message was sent, in seconds since the epoch.
    pub timestamp: u64,
}

/// A contact as it is stored.
#[derive(Debug, Clone)]
pub struct StoredContact {
    pub id: String,
    pub username: String,
    /// The identity public key of the contact.
    pub public_key: Vec<u8>,
}

} // verus!
