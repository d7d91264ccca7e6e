//! The byte form in which a session snapshot is stored.
//!
//! Nothing in this file is proved. The byte form is the one `bincode`
//! gives to the fields of a snapshot, taken in their order; the two
//! functions below hand a snapshot to it and take one back. The two
//! tables of a snapshot are written in the order in which they are walked,
//! so the bytes of a snapshot are not its function; what is read back from
//! them is.

use vstd::prelude::*;
use std::collections::HashMap;
use crate::crypto::double_ratchet::{SerializableSession, SnapshotView};

verus! {

/// The snapshot whose fields `bincode` reads from the front of a byte
/// string; `None` where it reads none.
pub uninterp spec fn bincode_snapshot(bytes: Seq<u8>) -> Option<SnapshotView>;

/// The snapshot an optional record holds.
pub open spec fn optional_snapshot_view(snapshot: Option<SerializableSession>) -> Option<SnapshotView> {
    match snapshot {
        Some(s) => Some(s@),
        None => None,
    }
}

/// `bincode::serialize` on the tuple of the fields of a snapshot, in
/// their order. `bincode::deserialize` reads the same fields back from
/// the bytes. It does not fail: no size limit is set, the bytes go to a
/// vector, and every sequence and table knows its length.
#[verifier::external_body]
pub(crate) fn bincode_encode(snapshot: &SerializableSession) -> (bytes: Option<Vec<u8>>)
    ensures
        bytes is Some,
        bytes matches Some(b) ==> bincode_snapshot(b@) == Some(snapshot@),
{
    let s = snapshot;
    let fields = (
        s.suite_id, &s.root_key, &s.sending_chain_key, s.sending_chain_length,
        &s.receiving_chain_key, s.receiving_chain_length, &s.dh_ratchet_private,
        &s.dh_ratchet_public, &s.remote_dh_public, s.previous_sending_length,
        &s.skipped_message_keys, &s.skipped_key_timestamps, &s.session_id, &s.contact_id,
    );
    bincode::serialize(&fields).ok()
}

/// `bincode::deserialize` to the tuple of the fields of a snapshot, in
/// their order: the snapshot read, a function of the bytes, or `None`
/// where the bytes do not hold one.
#[verifier::external_body]
pub(crate) fn bincode_decode(data: &[u8]) -> (snapshot: Option<SerializableSession>)
    ensures
        optional_snapshot_view(snapshot) == bincode_snapshot(data@),
{
    let f: (u16, Vec<u8>, Vec<u8>, u32, Vec<u8>, u32, Option<Vec<u8>>, Vec<u8>, Option<Vec<u8>>, u32,
        HashMap<u32, Vec<u8>>, HashMap<u32, u64>, String, String) = bincode::deserialize(data).ok()?;
    Some(SerializableSession {
        suite_id: f.0, root_key: f.1, sending_chain_key: f.2, sending_chain_length: f.3,
        receiving_chain_key: f.4, receiving_chain_length: f.5, dh_ratchet_private: f.6,
        dh_ratchet_public: f.7, remote_dh_public: f.8, previous_sending_length: f.9,
        skipped_message_keys: f.10, skipped_key_timestamps: f.11, session_id: f.12, contact_id: f.13,
    })
}

} // verus!
