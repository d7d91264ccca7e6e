//! Cryptographic core of an end-to-end encrypted messenger: a pluggable
//! suite of primitives, the X3DH handshake, the Double Ratchet session, and
//! the key and session managers built on them.

use vstd::prelude::*;

pub mod api;
pub mod crypto;
pub mod error;
pub mod protocol;
pub mod state;
pub mod storage;
pub mod utils;

pub use crypto::ClientCrypto;

verus! {

/// Identifier of a cryptographic suite, carried by every bundle and message.
pub type SuiteID = u16;

/// X25519, Ed25519, ChaCha20-Poly1305 and HKDF-SHA256.
pub const CLASSIC_SUITE_ID: SuiteID = 1;

/// Reserved for the post-quantum hybrid suite.
pub const PQ_HYBRID_SUITE_ID: SuiteID = 2;

/// Whether a suite id is one of the two that are assigned: a decoder
/// refuses a message of any other suite.
pub fn is_known_suite(suite_id: SuiteID) -> (known: bool)
    ensures
        known == (suite_id == CLASSIC_SUITE_ID || suite_id == PQ_HYBRID_SUITE_ID),
{
    suite_id == CLASSIC_SUITE_ID || suite_id == PQ_HYBRID_SUITE_ID
}

} // verus!
