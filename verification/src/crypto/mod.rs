//! Suite abstraction, handshake, ratchet, key and session management.

pub mod classic_suite;
pub mod client;
pub mod double_ratchet;
pub mod keys;
pub mod primitives;
pub mod provider;
pub mod ratchet_laws;
pub mod session;
pub mod storage_format;
pub mod x3dh;

pub use client::ClientCrypto;
pub use double_ratchet::{DoubleRatchetSession, EncryptedRatchetMessage, SerializableSession};
pub use provider::CryptoProvider;
pub use x3dh::{PublicKeyBundle, RegistrationBundle, X3DH};
