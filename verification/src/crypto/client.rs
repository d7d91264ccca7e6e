//! A client of the protocol: its long-lived keys and the sessions it has
//! begun, each under its session id.

use vstd::prelude::*;
use core::marker::PhantomData;
use crate::crypto::double_ratchet::{
    new_receiving_state,
    new_sending_state,
    decrypt_step,
    decrypted_on_chain,
    emitted_by,
    encrypt_step,
    is_new_receiving_state,
    is_new_sending_state,
    needs_ratchet,
    restored_state,
    snapshot_of,
    DoubleRatchetSession,
    EncryptedRatchetMessage,
    MessageView,
    SessionState,
    MESSAGE_NONCE_LEN,
};
use crate::crypto::keys::{is_kem_pair, is_kem_pair_of, is_signature_pair};
use crate::crypto::provider::{bytes_result_view, CryptoProvider};
use crate::crypto::storage_format::{bincode_decode, bincode_encode, bincode_snapshot};
use crate::crypto::x3dh::{
    bundle_of_keys,
    x3dh_root_key_seed,
    BundleView,
    PublicKeyBundle,
    RegistrationBundle,
    X3DH,
};
use crate::error::CryptoError;
use crate::utils::secret::SecretBytes;

verus! {

/// What a client holds, as plain values. Each key pair has its private
/// half first.
pub struct ClientState {
    pub identity_key: (Seq<u8>, Seq<u8>),
    pub signed_prekey: (Seq<u8>, Seq<u8>),
    pub signing_key: (Seq<u8>, Seq<u8>),
    /// The signature of the signed prekey's public half.
    pub prekey_signature: Seq<u8>,
    /// The sessions with their ids, in the order in which they were begun.
    pub sessions: Seq<(Seq<char>, SessionState)>,
}

/// Whether some session of the list has the id.
pub open spec fn has_session_id(sessions: Seq<(Seq<char>, SessionState)>, id: Seq<char>) -> bool {
    exists|i: int| 0 <= i < sessions.len() && (#[trigger] sessions[i]).0 == id
}

/// The place of the session with an id.
pub open spec fn session_index(sessions: Seq<(Seq<char>, SessionState)>, id: Seq<char>) -> int {
    choose|i: int| 0 <= i < sessions.len() && (#[trigger] sessions[i]).0 == id
}

/// Whether no two sessions of the list have the same id.
pub open spec fn session_ids_distinct(sessions: Seq<(Seq<char>, SessionState)>) -> bool {
    forall|i: int, j: int| 0 <= i < j < sessions.len() ==> (#[trigger] sessions[i]).0 != (#[trigger] sessions[j]).0
}

/// The list with a session under its id behind the others, in place of
/// the session that had the id.
pub open spec fn with_session(sessions: Seq<(Seq<char>, SessionState)>, session: SessionState) -> Seq<
    (Seq<char>, SessionState),
> {
    let others = if has_session_id(sessions, session.session_id) {
        sessions.remove(session_index(sessions, session.session_id))
    } else {
        sessions
    };
    others.push((session.session_id, session))
}

/// Whether `after` is what a session in the state `before` becomes by
/// encrypting the plaintext to the message, under the 12-byte nonce the
/// message carries.
pub open spec fn encrypted_by<P: CryptoProvider>(
    before: SessionState,
    after: SessionState,
    plaintext: Seq<u8>,
    message: MessageView,
) -> bool {
    &&& message.nonce.len() == MESSAGE_NONCE_LEN
    &&& encrypt_step::<P>(before, plaintext, message.nonce) == Ok::<(SessionState, MessageView), CryptoError>(
        (after, message),
    )
    &&& emitted_by::<P>(before, plaintext, message)
}

/// Whether `after` is what a session in the state `before` becomes by
/// decrypting the message to the plaintext at some time, with some key
/// pair of the suite where a DH-ratchet step is taken.
pub open spec fn decrypted_by<P: CryptoProvider>(
    before: SessionState,
    after: SessionState,
    message: MessageView,
    plaintext: Seq<u8>,
) -> bool {
    exists|now: u64, fresh_private: Seq<u8>, fresh_public: Seq<u8>|
        (needs_ratchet(before, message) ==> P::spec_kem_public(fresh_private) == Ok::<Seq<u8>, CryptoError>(
            fresh_public,
        )) && #[trigger] decrypt_step::<P>(before, message, now, fresh_private, fresh_public) == Ok::<
            (SessionState, Seq<u8>),
            CryptoError,
        >((after, plaintext))
}

impl ClientState {
    /// The invariant of every client: its keys are key pairs of the
    /// suite, the signed prekey is signed under the signing key with a
    /// signature that verifies under the verifying key, and every session
    /// is found under its own id.
    pub open spec fn well_formed<P: CryptoProvider>(self) -> bool {
        &&& is_kem_pair_of::<P>(self.identity_key.0, self.identity_key.1)
        &&& is_kem_pair_of::<P>(self.signed_prekey.0, self.signed_prekey.1)
        &&& P::spec_signature_public(self.signing_key.0) == Ok::<Seq<u8>, CryptoError>(self.signing_key.1)
        &&& P::spec_sign(self.signing_key.0, self.signed_prekey.1) == Ok::<Seq<u8>, CryptoError>(self.prekey_signature)
        &&& P::spec_verify(self.signing_key.1, self.signed_prekey.1, self.prekey_signature) == Ok::<(), CryptoError>(
            (),
        )
        &&& session_ids_distinct(self.sessions)
        &&& forall|i: int| 0 <= i < self.sessions.len() ==> (#[trigger] self.sessions[i]).0 == self.sessions[i].1.session_id
    }

    /// The bundle the client registers with.
    pub open spec fn bundle<P: CryptoProvider>(self) -> BundleView {
        BundleView {
            identity_public: self.identity_key.1,
            signed_prekey_public: self.signed_prekey.1,
            signature: self.prekey_signature,
            verifying_key: self.signing_key.1,
            suite_id: P::spec_suite_id(),
        }
    }

    /// The root key seed of the handshake against a peer's bundle.
    pub open spec fn handshake<P: CryptoProvider>(self, remote: BundleView) -> Result<Seq<u8>, CryptoError> {
        x3dh_root_key_seed::<P>(
            self.identity_key.0,
            remote.identity_public,
            remote.signed_prekey_public,
            remote.signature,
            remote.verifying_key,
            remote.suite_id,
        )
    }
}

/// The sessions of a table with their ids.
pub open spec fn table_view<P: CryptoProvider>(table: Seq<(String, DoubleRatchetSession<P>)>) -> Seq<
    (Seq<char>, SessionState),
> {
    table.map_values(|e: (String, DoubleRatchetSession<P>)| (e.0@, e.1@))
}

/// Removing a session keeps the ids distinct and brings no id back.
proof fn lemma_remove_keeps_ids_distinct(sessions: Seq<(Seq<char>, SessionState)>, i: int)
    requires
        session_ids_distinct(sessions),
        0 <= i < sessions.len(),
    ensures
        session_ids_distinct(sessions.remove(i)),
        !has_session_id(sessions.remove(i), sessions[i].0),
{
    let after = sessions.remove(i);
    assert forall|a: int, b: int| 0 <= a < b < after.len() implies (#[trigger] after[a]).0 != (#[trigger] after[b]).0 by {
        let a0 = if a < i { a } else { a + 1 };
        let b0 = if b < i { b } else { b + 1 };
        assert(after[a] == sessions[a0]);
        assert(after[b] == sessions[b0]);
    }
    if has_session_id(after, sessions[i].0) {
        let a = session_index(after, sessions[i].0);
        let a0 = if a < i { a } else { a + 1 };
        assert(after[a] == sessions[a0]);
    }
}

/// The place of the session with an id, if there is one.
fn find_session<P: CryptoProvider>(table: &Vec<(String, DoubleRatchetSession<P>)>, id: &str) -> (found: Option<usize>)
    requires
        session_ids_distinct(table_view(table@)),
    ensures
        found is Some <==> has_session_id(table_view(table@), id@),
        found matches Some(i) ==> i < table@.len() && i == session_index(table_view(table@), id@) && table@[i as int].0@
            == id@,
{
    let key = id.to_owned();
    let ghost view = table_view(table@);
    let mut i: usize = 0;
    while i < table.len()
        invariant
            i <= table@.len(),
            view == table_view(table@),
            session_ids_distinct(view),
            key@ == id@,
            forall|j: int| 0 <= j < i ==> (#[trigger] view[j]).0 != id@,
        decreases table@.len() - i,
    {
        if table[i].0 == key {
            assert(view[i as int].0 == id@);
            let ghost chosen = session_index(view, id@);
            assert(chosen == i) by {
                if chosen < i {
                    assert(view[chosen].0 != id@);
                }
                if i < chosen {
                    assert(view[i as int].0 != view[chosen].0);
                }
            }
            return Some(i);
        }
        i += 1;
    }
    None
}

/// A client over the suite `P`.
pub struct ClientCrypto<P: CryptoProvider> {
    identity_key: (SecretBytes, Vec<u8>),
    signed_prekey: (SecretBytes, Vec<u8>),
    signing_key: (SecretBytes, Vec<u8>),
    prekey_signature: Vec<u8>,
    sessions: Vec<(String, DoubleRatchetSession<P>)>,
    _phantom: PhantomData<P>,
}

impl<P: CryptoProvider> View for ClientCrypto<P> {
    type V = ClientState;

    closed spec fn view(&self) -> ClientState {
        ClientState {
            identity_key: (self.identity_key.0@, self.identity_key.1@),
            signed_prekey: (self.signed_prekey.0@, self.signed_prekey.1@),
            signing_key: (self.signing_key.0@, self.signing_key.1@),
            prekey_signature: self.prekey_signature@,
            sessions: table_view(self.sessions@),
        }
    }
}

/// The client that three key pairs make, each given private half first:
/// one without sessions, whose signed prekey is signed under the signing
/// key. What is no key pair of the suite is refused with `InvalidInput`;
/// else it fails as signing the prekey fails.
pub open spec fn new_client_state<P: CryptoProvider>(
    identity_key: (Seq<u8>, Seq<u8>),
    signed_prekey: (Seq<u8>, Seq<u8>),
    signing_key: (Seq<u8>, Seq<u8>),
) -> Result<ClientState, CryptoError> {
    if P::spec_kem_public(identity_key.0) != Ok::<Seq<u8>, CryptoError>(identity_key.1) || P::spec_kem_public(
        signed_prekey.0,
    ) != Ok::<Seq<u8>, CryptoError>(signed_prekey.1) || P::spec_signature_public(signing_key.0) != Ok::<
        Seq<u8>,
        CryptoError,
    >(signing_key.1) {
        Err(CryptoError::InvalidInput)
    } else {
        match P::spec_sign(signing_key.0, signed_prekey.1) {
            Ok(signature) => Ok(
                ClientState {
                    identity_key,
                    signed_prekey,
                    signing_key,
                    prekey_signature: signature,
                    sessions: Seq::empty(),
                },
            ),
            Err(e) => Err(e),
        }
    }
}

impl<P: CryptoProvider> ClientCrypto<P> {
    #[verifier::type_invariant]
    spec fn client_invariant(self) -> bool {
        self@.well_formed::<P>()
    }

    /// A client with given key pairs, each with its private half first,
    /// and no sessions. What is no key pair of the suite is refused with
    /// `InvalidInput`; else it fails as signing the prekey fails.
    pub fn new_with_keys(identity_key: (Vec<u8>, Vec<u8>), signed_prekey: (Vec<u8>, Vec<u8>), signing_key: (
        Vec<u8>,
        Vec<u8>,
    )) -> (r: Result<Self, CryptoError>)
        ensures
            match new_client_state::<P>(
                (identity_key.0@, identity_key.1@),
                (signed_prekey.0@, signed_prekey.1@),
                (signing_key.0@, signing_key.1@),
            ) {
                Ok(state) => r matches Ok(client) && client@ == state && state.well_formed::<P>(),
                Err(e) => r matches Err(f) && f == e,
            },
    {
        let identity_key = (SecretBytes::new(identity_key.0), identity_key.1);
        let signed_prekey = (SecretBytes::new(signed_prekey.0), signed_prekey.1);
        let signing_key = (SecretBytes::new(signing_key.0), signing_key.1);
        if !is_kem_pair::<P>(identity_key.0.as_vec(), &identity_key.1) || !is_kem_pair::<P>(
            signed_prekey.0.as_vec(),
            &signed_prekey.1,
        ) || !is_signature_pair::<P>(signing_key.0.as_vec(), &signing_key.1) {
            return Err(CryptoError::InvalidInput);
        }
        let prekey_signature = P::sign(signing_key.0.as_vec(), signed_prekey.1.as_slice())?;
        let client = ClientCrypto {
            identity_key,
            signed_prekey,
            signing_key,
            prekey_signature,
            sessions: Vec::new(),
            _phantom: PhantomData,
        };
        assert(client@.sessions =~= Seq::empty());
        Ok(client)
    }

    /// A client with fresh keys and no sessions. Where it fails, no
    /// randomness could be had (`KeyDerivation`) or signing the public
    /// half of a KEM key pair of the suite under a signing key of the
    /// suite failed.
    pub fn new() -> (r: Result<Self, CryptoError>)
        ensures
            r matches Err(e) ==> e == CryptoError::KeyDerivation || exists|signing: Seq<u8>, prekey: (Seq<u8>, Seq<u8>)|
                P::spec_signature_public(signing) is Ok && P::spec_kem_public(prekey.0) == Ok::<Seq<u8>, CryptoError>(
                    prekey.1,
                ) && #[trigger] P::spec_sign(signing, prekey.1) == Err::<Seq<u8>, CryptoError>(e),
            r matches Ok(client) ==> {
                &&& client@.sessions.len() == 0
                &&& client@.well_formed::<P>()
                &&& P::spec_kem_public(client@.identity_key.0) == Ok::<Seq<u8>, CryptoError>(client@.identity_key.1)
                &&& P::spec_kem_public(client@.signed_prekey.0) == Ok::<Seq<u8>, CryptoError>(client@.signed_prekey.1)
                &&& P::spec_signature_public(client@.signing_key.0) == Ok::<Seq<u8>, CryptoError>(
                    client@.signing_key.1,
                )
            },
    {
        let identity_key = P::generate_kem_keys()?;
        let signed_prekey = P::generate_kem_keys()?;
        let signing_key = P::generate_signature_keys()?;
        let ghost signing = signing_key.0@;
        let ghost prekey = (signed_prekey.0@, signed_prekey.1@);
        let r = Self::new_with_keys(identity_key, signed_prekey, signing_key);
        proof {
            if r is Err {
                assert(P::spec_sign(signing, prekey.1) == Err::<Seq<u8>, CryptoError>(r->Err_0));
            }
        }
        r
    }

    /// The bundle the client registers with: its public keys, with the
    /// signed prekey signed under its signing key. It is the bundle of the
    /// client's three private keys, and its signature verifies under its
    /// verifying key.
    pub fn get_registration_bundle(&self) -> (bundle: RegistrationBundle)
        ensures
            bundle@ == self@.bundle::<P>(),
            self@.well_formed::<P>(),
            bundle_of_keys::<P>(bundle@, self@.identity_key.0, self@.signed_prekey.0, self@.signing_key.0),
            P::spec_verify(bundle@.verifying_key, bundle@.signed_prekey_public, bundle@.signature) == Ok::<
                (),
                CryptoError,
            >(()),
    {
        proof {
            use_type_invariant(self);
        }
        RegistrationBundle {
            identity_public: self.identity_key.1.clone(),
            signed_prekey_public: self.signed_prekey.1.clone(),
            signature: self.prekey_signature.clone(),
            verifying_key: self.signing_key.1.clone(),
            suite_id: P::suite_id(),
        }
    }

    /// How many sessions the client holds.
    pub fn session_count(&self) -> (count: usize)
        ensures
            count == self@.sessions.len(),
    {
        self.sessions.len()
    }

    /// Whether the client holds a session with the id.
    pub fn has_session(&self, session_id: &str) -> (held: bool)
        ensures
            held == has_session_id(self@.sessions, session_id@),
    {
        proof {
            use_type_invariant(self);
        }
        find_session(&self.sessions, session_id).is_some()
    }

    /// A KEM public key of the suite from the bytes of a bundle.
    fn bytes_to_kem_public_key(bytes: &Vec<u8>) -> (key: Vec<u8>)
        ensures
            key@ == bytes@,
    {
        P::kem_public_key_from_bytes(bytes.clone())
    }

    /// A verifying key of the suite from the bytes of a bundle.
    fn bytes_to_signature_public_key(bytes: &Vec<u8>) -> (key: Vec<u8>)
        ensures
            key@ == bytes@,
    {
        P::signature_public_key_from_bytes(bytes.clone())
    }

    /// Puts a session among those held, under its own id, and returns the
    /// id.
    fn store(&mut self, session: DoubleRatchetSession<P>) -> (id: String)
        ensures
            id@ == session@.session_id,
            final(self)@ == (ClientState { sessions: with_session(old(self)@.sessions, session@), ..old(self)@ }),
    {
        proof {
            use_type_invariant(&*self);
        }
        let id = session.session_id().to_owned();
        let mut table: Vec<(String, DoubleRatchetSession<P>)> = Vec::new();
        assert(table_view(table@) =~= Seq::empty());
        core::mem::swap(&mut self.sessions, &mut table);
        let ghost before = table_view(table@);
        match find_session(&table, id.as_str()) {
            Some(i) => {
                proof {
                    lemma_remove_keeps_ids_distinct(before, i as int);
                }
                table.remove(i);
                assert(table_view(table@) =~= before.remove(i as int));
            },
            None => {},
        }
        let ghost others = table_view(table@);
        let entry = (id.clone(), session);
        table.push(entry);
        proof {
            let after = table_view(table@);
            assert(after =~= others.push((id@, session@)));
            assert forall|a: int, b: int| 0 <= a < b < after.len() implies (#[trigger] after[a]).0 != (
            #[trigger] after[b]).0 by {
                if b < others.len() {
                    assert(after[a] == others[a]);
                    assert(after[b] == others[b]);
                } else {
                    assert(after[a] == others[a]);
                }
            }
            assert forall|a: int| 0 <= a < after.len() implies (#[trigger] after[a]).0 == after[a].1.session_id by {
                if a < others.len() {
                    assert(after[a] == others[a]);
                    if has_session_id(before, id@) {
                        let i = session_index(before, id@);
                        let a0 = if a < i { a } else { a + 1 };
                        assert(others[a] == before[a0]);
                    } else {
                        assert(others[a] == before[a]);
                    }
                }
            }
        }
        self.sessions = table;
        id
    }

    /// Begins a session with a contact as the initiator: runs the
    /// handshake against the contact's bundle, makes the session from its
    /// seed and holds it under the session's id, which is returned. On
    /// failure the client is unchanged, and where the handshake fails, it
    /// fails as the handshake does.
    pub fn init_session(&mut self, contact_id: &str, remote_bundle: &PublicKeyBundle) -> (r: Result<
        String,
        CryptoError,
    >)
        ensures
            r is Err ==> final(self)@ == old(self)@,
            old(self)@.handshake::<P>(remote_bundle@) matches Err(e) ==> (r matches Err(f) && f == e),
            old(self)@.handshake::<P>(remote_bundle@) is Ok ==> (r matches Err(e) ==> e == CryptoError::KeyDerivation || exists|
                dh_private: Seq<u8>,
                dh_public: Seq<u8>,
                session_id: Seq<char>,
            |
                #[trigger] new_sending_state::<P>(
                    remote_bundle@.suite_id,
                    old(self)@.handshake::<P>(remote_bundle@)->Ok_0,
                    remote_bundle@.identity_public,
                    old(self)@.identity_key.0,
                    contact_id@,
                    dh_private,
                    dh_public,
                    session_id,
                ) == Err::<SessionState, CryptoError>(e)),
            r matches Ok(id) ==> old(self)@.handshake::<P>(remote_bundle@) is Ok && exists|session: SessionState|
                #[trigger] is_new_sending_state::<P>(
                    session,
                    remote_bundle@.suite_id,
                    old(self)@.handshake::<P>(remote_bundle@)->Ok_0,
                    remote_bundle@.identity_public,
                    old(self)@.identity_key.0,
                    contact_id@,
                ) && id@ == session.session_id && final(self)@ == (ClientState {
                    sessions: with_session(old(self)@.sessions, session),
                    ..old(self)@
                }),
    {
        let remote_identity_public = Self::bytes_to_kem_public_key(&remote_bundle.identity_public);
        let remote_signed_prekey_public = Self::bytes_to_kem_public_key(&remote_bundle.signed_prekey_public);
        let remote_verifying_key = Self::bytes_to_signature_public_key(&remote_bundle.verifying_key);
        let root_key = X3DH::<P>::perform_x3dh(
            self.identity_key.0.as_vec(),
            self.signed_prekey.0.as_vec(),
            &remote_identity_public,
            &remote_signed_prekey_public,
            remote_bundle.signature.as_slice(),
            &remote_verifying_key,
            remote_bundle.suite_id,
        )?;
        let created = DoubleRatchetSession::<P>::new_x3dh_session(
            remote_bundle.suite_id,
            root_key.as_slice(),
            &remote_identity_public,
            self.identity_key.0.as_vec(),
            contact_id.to_owned(),
        );
        proof {
            if created is Err && created->Err_0 != CryptoError::KeyDerivation {
                let keys = choose|dh_private: Seq<u8>, dh_public: Seq<u8>, session_id: Seq<char>|
                    #[trigger] new_sending_state::<P>(
                        remote_bundle.suite_id,
                        root_key@,
                        remote_identity_public@,
                        self.identity_key.0@,
                        contact_id@,
                        dh_private,
                        dh_public,
                        session_id,
                    ) == Err::<SessionState, CryptoError>(created->Err_0);
                assert(new_sending_state::<P>(
                    remote_bundle@.suite_id,
                    old(self)@.handshake::<P>(remote_bundle@)->Ok_0,
                    remote_bundle@.identity_public,
                    old(self)@.identity_key.0,
                    contact_id@,
                    keys.0,
                    keys.1,
                    keys.2,
                ) == Err::<SessionState, CryptoError>(created->Err_0));
            }
        }
        let session = created?;
        let ghost state = session@;
        let id = self.store(session);
        assert(is_new_sending_state::<P>(
            state,
            remote_bundle@.suite_id,
            old(self)@.handshake::<P>(remote_bundle@)->Ok_0,
            remote_bundle@.identity_public,
            old(self)@.identity_key.0,
            contact_id@,
        ));
        Ok(id)
    }

    /// Begins a session with a contact as the initiator.
    pub fn init_double_ratchet_session(&mut self, contact_id: &str, remote_bundle: &PublicKeyBundle) -> (r: Result<
        String,
        CryptoError,
    >)
        ensures
            r is Err ==> final(self)@ == old(self)@,
            old(self)@.handshake::<P>(remote_bundle@) matches Err(e) ==> (r matches Err(f) && f == e),
            old(self)@.handshake::<P>(remote_bundle@) is Ok ==> (r matches Err(e) ==> e == CryptoError::KeyDerivation || exists|
                dh_private: Seq<u8>,
                dh_public: Seq<u8>,
                session_id: Seq<char>,
            |
                #[trigger] new_sending_state::<P>(
                    remote_bundle@.suite_id,
                    old(self)@.handshake::<P>(remote_bundle@)->Ok_0,
                    remote_bundle@.identity_public,
                    old(self)@.identity_key.0,
                    contact_id@,
                    dh_private,
                    dh_public,
                    session_id,
                ) == Err::<SessionState, CryptoError>(e)),
            r matches Ok(id) ==> old(self)@.handshake::<P>(remote_bundle@) is Ok && exists|session: SessionState|
                #[trigger] is_new_sending_state::<P>(
                    session,
                    remote_bundle@.suite_id,
                    old(self)@.handshake::<P>(remote_bundle@)->Ok_0,
                    remote_bundle@.identity_public,
                    old(self)@.identity_key.0,
                    contact_id@,
                ) && id@ == session.session_id && final(self)@ == (ClientState {
                    sessions: with_session(old(self)@.sessions, session),
                    ..old(self)@
                }),
    {
        self.init_session(contact_id, remote_bundle)
    }

    /// Begins a session with a contact as the responder, from the first
    /// message the contact sent: runs the handshake against the contact's
    /// bundle, makes the session from its seed and the message, and holds
    /// it under the session's id, which is returned. On failure the client
    /// is unchanged, and where the handshake fails, it fails as the
    /// handshake does.
    pub fn init_receiving_session(
        &mut self,
        contact_id: &str,
        remote_bundle: &PublicKeyBundle,
        first_message: &EncryptedRatchetMessage,
    ) -> (r: Result<String, CryptoError>)
        ensures
            r is Err ==> final(self)@ == old(self)@,
            old(self)@.handshake::<P>(remote_bundle@) matches Err(e) ==> (r matches Err(f) && f == e),
            old(self)@.handshake::<P>(remote_bundle@) is Ok ==> (r matches Err(e) ==> e == CryptoError::KeyDerivation || exists|
                dh_private: Seq<u8>,
                dh_public: Seq<u8>,
                session_id: Seq<char>,
            |
                #[trigger] new_receiving_state::<P>(
                    remote_bundle@.suite_id,
                    old(self)@.handshake::<P>(remote_bundle@)->Ok_0,
                    old(self)@.identity_key.0,
                    first_message@,
                    contact_id@,
                    dh_private,
                    dh_public,
                    session_id,
                ) == Err::<SessionState, CryptoError>(e)),
            r matches Ok(id) ==> old(self)@.handshake::<P>(remote_bundle@) is Ok && exists|session: SessionState|
                #[trigger] is_new_receiving_state::<P>(
                    session,
                    remote_bundle@.suite_id,
                    old(self)@.handshake::<P>(remote_bundle@)->Ok_0,
                    old(self)@.identity_key.0,
                    first_message@,
                    contact_id@,
                ) && id@ == session.session_id && final(self)@ == (ClientState {
                    sessions: with_session(old(self)@.sessions, session),
                    ..old(self)@
                }),
    {
        let remote_identity_public = Self::bytes_to_kem_public_key(&remote_bundle.identity_public);
        let remote_signed_prekey_public = Self::bytes_to_kem_public_key(&remote_bundle.signed_prekey_public);
        let remote_verifying_key = Self::bytes_to_signature_public_key(&remote_bundle.verifying_key);
        let root_key = X3DH::<P>::perform_x3dh(
            self.identity_key.0.as_vec(),
            self.signed_prekey.0.as_vec(),
            &remote_identity_public,
            &remote_signed_prekey_public,
            remote_bundle.signature.as_slice(),
            &remote_verifying_key,
            remote_bundle.suite_id,
        )?;
        let created = DoubleRatchetSession::<P>::new_receiving_session(
            remote_bundle.suite_id,
            root_key.as_slice(),
            self.identity_key.0.as_vec(),
            first_message,
            contact_id.to_owned(),
        );
        proof {
            if created is Err && created->Err_0 != CryptoError::KeyDerivation {
                let keys = choose|dh_private: Seq<u8>, dh_public: Seq<u8>, session_id: Seq<char>|
                    #[trigger] new_receiving_state::<P>(
                        remote_bundle.suite_id,
                        root_key@,
                        self.identity_key.0@,
                        first_message@,
                        contact_id@,
                        dh_private,
                        dh_public,
                        session_id,
                    ) == Err::<SessionState, CryptoError>(created->Err_0);
                assert(new_receiving_state::<P>(
                    remote_bundle@.suite_id,
                    old(self)@.handshake::<P>(remote_bundle@)->Ok_0,
                    old(self)@.identity_key.0,
                    first_message@,
                    contact_id@,
                    keys.0,
                    keys.1,
                    keys.2,
                ) == Err::<SessionState, CryptoError>(created->Err_0));
            }
        }
        let session = created?;
        let ghost state = session@;
        let id = self.store(session);
        assert(is_new_receiving_state::<P>(
            state,
            remote_bundle@.suite_id,
            old(self)@.handshake::<P>(remote_bundle@)->Ok_0,
            old(self)@.identity_key.0,
            first_message@,
            contact_id@,
        ));
        Ok(id)
    }

    /// Encrypts a message in the session with the id. Without such a
    /// session it fails with `SessionNotFound`. On success that session,
    /// and no other, has encrypted the plaintext to the message; on
    /// failure the client is unchanged.
    pub fn encrypt_ratchet_message(&mut self, session_id: &str, plaintext: &[u8]) -> (r: Result<
        EncryptedRatchetMessage,
        CryptoError,
    >)
        ensures
            r is Err ==> final(self)@ == old(self)@,
            !has_session_id(old(self)@.sessions, session_id@) ==> (r matches Err(e) && e
                == CryptoError::SessionNotFound),
            r matches Ok(message) ==> has_session_id(old(self)@.sessions, session_id@) && ({
                let i = session_index(old(self)@.sessions, session_id@);
                &&& i < final(self)@.sessions.len()
                &&& encrypted_by::<P>(old(self)@.sessions[i].1, final(self)@.sessions[i].1, plaintext@, message@)
                &&& final(self)@ == (ClientState {
                    sessions: old(self)@.sessions.update(i, (session_id@, final(self)@.sessions[i].1)),
                    ..old(self)@
                })
            }),
    {
        proof {
            use_type_invariant(&*self);
        }
        let i = match find_session(&self.sessions, session_id) {
            Some(i) => i,
            None => {
                return Err(CryptoError::SessionNotFound);
            },
        };
        let mut table: Vec<(String, DoubleRatchetSession<P>)> = Vec::new();
        assert(table_view(table@) =~= Seq::empty());
        core::mem::swap(&mut self.sessions, &mut table);
        let ghost before = table_view(table@);
        let ghost entries = table@;
        assert(before[i as int] == (entries[i as int].0@, entries[i as int].1@));
        let r = table[i].1.encrypt(plaintext);
        proof {
            let after = table_view(table@);
            assert(after =~= before.update(i as int, (session_id@, table@[i as int].1@)));
            assert(after[i as int].1.session_id == before[i as int].1.session_id);
            assert forall|a: int, b: int| 0 <= a < b < after.len() implies (#[trigger] after[a]).0 != (
            #[trigger] after[b]).0 by {
                assert(after[a].0 == before[a].0);
                assert(after[b].0 == before[b].0);
            }
            assert forall|a: int| 0 <= a < after.len() implies (#[trigger] after[a]).0 == after[a].1.session_id by {
                if a != i {
                    assert(after[a] == before[a]);
                }
            }
            if r is Err {
                assert(after =~= before);
            }
        }
        self.sessions = table;
        r
    }

    /// Decrypts a message in the session with the id. Without such a
    /// session it fails with `SessionNotFound`. That session, and no
    /// other, decrypts the message: where the message asks for no
    /// DH-ratchet step, the outcome is what the state of the session and
    /// the time decide. On failure the client is unchanged.
    pub fn decrypt_ratchet_message(&mut self, session_id: &str, encrypted: &EncryptedRatchetMessage) -> (r: Result<
        Vec<u8>,
        CryptoError,
    >)
        ensures
            r is Err ==> final(self)@ == old(self)@,
            has_session_id(old(self)@.sessions, session_id@) ==> ({
                let i = session_index(old(self)@.sessions, session_id@);
                &&& i < final(self)@.sessions.len()
                &&& final(self)@ == (ClientState {
                    sessions: old(self)@.sessions.update(i, (session_id@, final(self)@.sessions[i].1)),
                    ..old(self)@
                })
                &&& !needs_ratchet(old(self)@.sessions[i].1, encrypted@) ==> decrypted_on_chain::<P>(
                    old(self)@.sessions[i].1,
                    final(self)@.sessions[i].1,
                    encrypted@,
                    bytes_result_view(r),
                )
            }),
            !has_session_id(old(self)@.sessions, session_id@) ==> (r matches Err(e) && e
                == CryptoError::SessionNotFound),
            r matches Ok(plaintext) ==> has_session_id(old(self)@.sessions, session_id@) && ({
                let i = session_index(old(self)@.sessions, session_id@);
                &&& i < final(self)@.sessions.len()
                &&& decrypted_by::<P>(old(self)@.sessions[i].1, final(self)@.sessions[i].1, encrypted@, plaintext@)
                &&& final(self)@ == (ClientState {
                    sessions: old(self)@.sessions.update(i, (session_id@, final(self)@.sessions[i].1)),
                    ..old(self)@
                })
            }),
    {
        proof {
            use_type_invariant(&*self);
        }
        let i = match find_session(&self.sessions, session_id) {
            Some(i) => i,
            None => {
                return Err(CryptoError::SessionNotFound);
            },
        };
        let mut table: Vec<(String, DoubleRatchetSession<P>)> = Vec::new();
        assert(table_view(table@) =~= Seq::empty());
        core::mem::swap(&mut self.sessions, &mut table);
        let ghost before = table_view(table@);
        let ghost entries = table@;
        assert(before[i as int] == (entries[i as int].0@, entries[i as int].1@));
        let r = table[i].1.decrypt(encrypted);
        proof {
            let after = table_view(table@);
            assert(after =~= before.update(i as int, (session_id@, table@[i as int].1@)));
            if r is Ok {
                crate::crypto::client::lemma_decrypted_keeps_id::<P>(
                    before[i as int].1,
                    after[i as int].1,
                    encrypted@,
                    r->Ok_0@,
                );
            }
            assert(after[i as int].1.session_id == before[i as int].1.session_id);
            assert forall|a: int, b: int| 0 <= a < b < after.len() implies (#[trigger] after[a]).0 != (
            #[trigger] after[b]).0 by {
                assert(after[a].0 == before[a].0);
                assert(after[b].0 == before[b].0);
            }
            assert forall|a: int| 0 <= a < after.len() implies (#[trigger] after[a]).0 == after[a].1.session_id by {
                if a != i {
                    assert(after[a] == before[a]);
                }
            }
            if r is Err {
                assert(after =~= before);
            }
        }
        self.sessions = table;
        r
    }

    /// The stored form of the session with the id. It fails without such
    /// a session, with `SessionNotFound`, and not otherwise.
    pub fn export_session(&self, session_id: &str) -> (r: Result<Vec<u8>, CryptoError>)
        ensures
            !has_session_id(self@.sessions, session_id@) ==> (r matches Err(e) && e == CryptoError::SessionNotFound),
            has_session_id(self@.sessions, session_id@) ==> {
                let snapshot = snapshot_of(self@.sessions[session_index(self@.sessions, session_id@)].1);
                r matches Ok(bytes) && bincode_snapshot(bytes@) == Some(snapshot)
            },
    {
        proof {
            use_type_invariant(self);
        }
        let i = match find_session(&self.sessions, session_id) {
            Some(i) => i,
            None => {
                return Err(CryptoError::SessionNotFound);
            },
        };
        assert(table_view(self.sessions@)[i as int] == (self.sessions@[i as int].0@, self.sessions@[i as int].1@));
        let snapshot = self.sessions[i].1.to_serializable();
        match bincode_encode(&snapshot) {
            Some(bytes) => Ok(bytes),
            None => Err(CryptoError::Serialization),
        }
    }

    /// Restores a session from its stored form and holds it under its id,
    /// which is returned. Bytes that hold no snapshot fail with
    /// `Serialization`, a snapshot that does not restore fails as
    /// restoring fails; on failure the client is unchanged.
    pub fn restore_session(&mut self, session_data: &[u8]) -> (r: Result<String, CryptoError>)
        ensures
            match bincode_snapshot(session_data@) {
                None => r matches Err(e) && e == CryptoError::Serialization && final(self)@ == old(self)@,
                Some(snapshot) => match restored_state::<P>(snapshot) {
                    Err(e) => r matches Err(f) && f == e && final(self)@ == old(self)@,
                    Ok(session) => r matches Ok(id) && id@ == session.session_id && final(self)@ == (ClientState {
                        sessions: with_session(old(self)@.sessions, session),
                        ..old(self)@
                    }),
                },
            },
    {
        let snapshot = match bincode_decode(session_data) {
            Some(snapshot) => snapshot,
            None => {
                return Err(CryptoError::Serialization);
            },
        };
        let session = DoubleRatchetSession::<P>::from_serializable(snapshot)?;
        Ok(self.store(session))
    }
}

/// Decryption leaves the id of a session as it is.
pub proof fn lemma_decrypted_keeps_id<P: CryptoProvider>(
    before: SessionState,
    after: SessionState,
    message: MessageView,
    plaintext: Seq<u8>,
)
    requires
        decrypted_by::<P>(before, after, message, plaintext),
    ensures
        after.session_id == before.session_id,
        after.contact_id == before.contact_id,
        after.suite_id == before.suite_id,
{
}

} // verus!
