//! The cryptographic core as its users see it: one value that holds the
//! key manager, the session manager and the client, and the text forms in
//! which bundles travel.

use vstd::prelude::*;
use vstd::utf8::{decode_utf8, encode_utf8, valid_utf8};
use crate::crypto::client::{
    decrypted_by,
    encrypted_by,
    has_session_id,
    session_index,
    with_session,
    ClientCrypto,
    ClientState,
};
use crate::crypto::double_ratchet::{
    new_receiving_state,
    new_sending_state,
    decrypted_on_chain,
    needs_ratchet,
    is_new_receiving_state,
    is_new_sending_state,
    EncryptedRatchetMessage,
    MessageView,
    SessionState,
};
use crate::crypto::keys::{KeyManager, KeyManagerState};
use crate::crypto::primitives::os_random_bytes;
use crate::crypto::provider::{bytes_result_view, CryptoProvider};
use crate::crypto::session::{has_contact, SessionManager, SessionManagerState};
use crate::crypto::x3dh::{BundleView, PublicKeyBundle, RegistrationBundle};
use crate::error::CryptoError;
use crate::utils::decimal::{decimal_text, decimal_u16, lemma_decimal_round_trip};
use crate::utils::encoding::{
    base64_bytes,
    base64_decode,
    base64_encode,
    base64_fits,
    base64_max_input_len,
    base64_text,
    json_get_string,
    json_insert_string,
    json_new_object,
    json_object_members,
    json_parse_object,
    json_to_text,
    string_from_utf8,
    text_to_u16,
    u16_to_text,
};
use crate::SuiteID;

verus! {

/// A key bundle as it is handed across the interface of the core.
#[derive(Debug, Clone)]
pub struct KeyBundle {
    pub identity_public: Vec<u8>,
    pub signed_prekey_public: Vec<u8>,
    pub signature: Vec<u8>,
    pub verifying_key: Vec<u8>,
    pub suite_id: SuiteID,
}

impl View for KeyBundle {
    type V = BundleView;

    open spec fn view(&self) -> BundleView {
        BundleView {
            identity_public: self.identity_public@,
            signed_prekey_public: self.signed_prekey_public@,
            signature: self.signature@,
            verifying_key: self.verifying_key@,
            suite_id: self.suite_id,
        }
    }
}

impl KeyBundle {
    /// The public key bundle with the fields of the key bundle.
    pub fn to_public_bundle(&self) -> (r: PublicKeyBundle)
        ensures
            r@ == self@,
    {
        PublicKeyBundle {
            identity_public: self.identity_public.clone(),
            signed_prekey_public: self.signed_prekey_public.clone(),
            signature: self.signature.clone(),
            verifying_key: self.verifying_key.clone(),
            suite_id: self.suite_id,
        }
    }
}

impl From<PublicKeyBundle> for KeyBundle {
    fn from(bundle: PublicKeyBundle) -> (r: Self)
        ensures
            r@ == bundle@,
    {
        KeyBundle {
            identity_public: bundle.identity_public,
            signed_prekey_public: bundle.signed_prekey_public,
            signature: bundle.signature,
            verifying_key: bundle.verifying_key,
            suite_id: bundle.suite_id,
        }
    }
}

impl From<RegistrationBundle> for KeyBundle {
    fn from(bundle: RegistrationBundle) -> (r: Self)
        ensures
            r@ == bundle@,
    {
        KeyBundle {
            identity_public: bundle.identity_public,
            signed_prekey_public: bundle.signed_prekey_public,
            signature: bundle.signature,
            verifying_key: bundle.verifying_key,
            suite_id: bundle.suite_id,
        }
    }
}

impl vstd::std_specs::convert::FromSpecImpl<RegistrationBundle> for KeyBundle {
    open spec fn obeys_from_spec() -> bool {
        true
    }

    open spec fn from_spec(bundle: RegistrationBundle) -> Self {
        KeyBundle {
            identity_public: bundle.identity_public,
            signed_prekey_public: bundle.signed_prekey_public,
            signature: bundle.signature,
            verifying_key: bundle.verifying_key,
            suite_id: bundle.suite_id,
        }
    }
}

impl From<KeyBundle> for PublicKeyBundle {
    fn from(bundle: KeyBundle) -> (r: Self)
        ensures
            r@ == bundle@,
    {
        PublicKeyBundle {
            identity_public: bundle.identity_public,
            signed_prekey_public: bundle.signed_prekey_public,
            signature: bundle.signature,
            verifying_key: bundle.verifying_key,
            suite_id: bundle.suite_id,
        }
    }
}

impl vstd::std_specs::convert::FromSpecImpl<KeyBundle> for PublicKeyBundle {
    open spec fn obeys_from_spec() -> bool {
        true
    }

    open spec fn from_spec(bundle: KeyBundle) -> Self {
        PublicKeyBundle {
            identity_public: bundle.identity_public,
            signed_prekey_public: bundle.signed_prekey_public,
            signature: bundle.signature,
            verifying_key: bundle.verifying_key,
            suite_id: bundle.suite_id,
        }
    }
}

impl vstd::std_specs::convert::FromSpecImpl<PublicKeyBundle> for KeyBundle {
    open spec fn obeys_from_spec() -> bool {
        true
    }

    open spec fn from_spec(bundle: PublicKeyBundle) -> Self {
        KeyBundle {
            identity_public: bundle.identity_public,
            signed_prekey_public: bundle.signed_prekey_public,
            signature: bundle.signature,
            verifying_key: bundle.verifying_key,
            suite_id: bundle.suite_id,
        }
    }
}

/// A registration bundle in text: the keys and the signature in base64,
/// the suite in decimal.
#[derive(Debug, Clone)]
pub struct RegistrationBundleB64 {
    pub identity_public: String,
    pub signed_prekey_public: String,
    pub signature: String,
    pub verifying_key: String,
    pub suite_id: String,
}

/// A registration bundle in text, under the name it has where it is
/// written as JSON.
pub type RegistrationBundleJson = RegistrationBundleB64;

/// What a bundle in text holds, as plain values.
pub struct BundleTextView {
    pub identity_public: Seq<char>,
    pub signed_prekey_public: Seq<char>,
    pub signature: Seq<char>,
    pub verifying_key: Seq<char>,
    pub suite_id: Seq<char>,
}

impl View for RegistrationBundleB64 {
    type V = BundleTextView;

    open spec fn view(&self) -> BundleTextView {
        BundleTextView {
            identity_public: self.identity_public@,
            signed_prekey_public: self.signed_prekey_public@,
            signature: self.signature@,
            verifying_key: self.verifying_key@,
            suite_id: self.suite_id@,
        }
    }
}

/// Whether every field of a bundle is short enough to be put in text.
pub open spec fn bundle_fits_text(bundle: BundleView) -> bool {
    &&& base64_fits(bundle.identity_public.len())
    &&& base64_fits(bundle.signed_prekey_public.len())
    &&& base64_fits(bundle.signature.len())
    &&& base64_fits(bundle.verifying_key.len())
}

/// The text form of a bundle.
pub open spec fn bundle_text(bundle: BundleView) -> BundleTextView {
    BundleTextView {
        identity_public: base64_text(bundle.identity_public),
        signed_prekey_public: base64_text(bundle.signed_prekey_public),
        signature: base64_text(bundle.signature),
        verifying_key: base64_text(bundle.verifying_key),
        suite_id: decimal_text(bundle.suite_id),
    }
}

/// Whether a bundle in text reads back as a bundle: its keys and signature
/// as base64, its suite as a decimal number.
pub open spec fn text_reads_as(text: BundleTextView, bundle: BundleView) -> bool {
    &&& base64_bytes(text.identity_public) == Some(bundle.identity_public)
    &&& base64_bytes(text.signed_prekey_public) == Some(bundle.signed_prekey_public)
    &&& base64_bytes(text.signature) == Some(bundle.signature)
    &&& base64_bytes(text.verifying_key) == Some(bundle.verifying_key)
    &&& decimal_u16(text.suite_id) == Some(bundle.suite_id)
}

/// The members of the JSON object that stands for a bundle in text.
pub open spec fn bundle_members(text: BundleTextView) -> Map<Seq<char>, Seq<char>> {
    Map::<Seq<char>, Seq<char>>::empty().insert("identity_public"@, text.identity_public).insert(
        "signed_prekey_public"@,
        text.signed_prekey_public,
    ).insert("signature"@, text.signature).insert("verifying_key"@, text.verifying_key).insert(
        "suite_id"@,
        text.suite_id,
    )
}

/// The bundle a JSON object stands for: its five members, the keys and
/// the signature read as base64 and the suite as a decimal number. An
/// object that lacks a member, or has one that does not read, stands for
/// none.
pub open spec fn bundle_of_members(members: Map<Seq<char>, Seq<char>>) -> Option<BundleView> {
    if members.contains_key("identity_public"@) && members.contains_key("signed_prekey_public"@)
        && members.contains_key("signature"@) && members.contains_key("verifying_key"@) && members.contains_key(
        "suite_id"@,
    ) {
        match (
            base64_bytes(members["identity_public"@]),
            base64_bytes(members["signed_prekey_public"@]),
            base64_bytes(members["signature"@]),
            base64_bytes(members["verifying_key"@]),
            decimal_u16(members["suite_id"@]),
        ) {
            (Some(identity_public), Some(signed_prekey_public), Some(signature), Some(verifying_key), Some(suite_id)) => Some(
                BundleView { identity_public, signed_prekey_public, signature, verifying_key, suite_id },
            ),
            _ => None,
        }
    } else {
        None
    }
}

/// The bundle a JSON text stands for, if it stands for one.
pub open spec fn bundle_of_json(json: Seq<char>) -> Option<BundleView> {
    match json_object_members(json) {
        Some(members) => bundle_of_members(members),
        None => None,
    }
}

/// The five member names are five different texts.
proof fn lemma_member_names_differ()
    ensures
        "identity_public"@ != "signed_prekey_public"@,
        "identity_public"@ != "signature"@,
        "identity_public"@ != "verifying_key"@,
        "identity_public"@ != "suite_id"@,
        "signed_prekey_public"@ != "signature"@,
        "signed_prekey_public"@ != "verifying_key"@,
        "signed_prekey_public"@ != "suite_id"@,
        "signature"@ != "verifying_key"@,
        "signature"@ != "suite_id"@,
        "verifying_key"@ != "suite_id"@,
{
    reveal_strlit("identity_public");
    reveal_strlit("signed_prekey_public");
    reveal_strlit("signature");
    reveal_strlit("verifying_key");
    reveal_strlit("suite_id");
    assert("identity_public"@.len() == 15);
    assert("signed_prekey_public"@.len() == 20);
    assert("signature"@.len() == 9);
    assert("verifying_key"@.len() == 13);
    assert("suite_id"@.len() == 8);
}

/// The text form of a bundle. Where a field is too long to be put in
/// text it fails with `InvalidInput`.
pub fn bundle_to_text(bundle: &KeyBundle) -> (r: Result<RegistrationBundleB64, CryptoError>)
    ensures
        bundle_fits_text(bundle@) ==> (r matches Ok(text) && text@ == bundle_text(bundle@)),
        r matches Ok(text) ==> text_reads_as(text@, bundle@),
        !bundle_fits_text(bundle@) ==> (r matches Err(e) && e == CryptoError::InvalidInput),
{
    let max = base64_max_input_len();
    if bundle.identity_public.len() > max || bundle.signed_prekey_public.len() > max || bundle.signature.len() > max
        || bundle.verifying_key.len() > max {
        return Err(CryptoError::InvalidInput);
    }
    proof {
        lemma_decimal_round_trip(bundle.suite_id);
    }
    Ok(
        RegistrationBundleB64 {
            identity_public: base64_encode(bundle.identity_public.as_slice()),
            signed_prekey_public: base64_encode(bundle.signed_prekey_public.as_slice()),
            signature: base64_encode(bundle.signature.as_slice()),
            verifying_key: base64_encode(bundle.verifying_key.as_slice()),
            suite_id: u16_to_text(bundle.suite_id),
        },
    )
}

/// Writes a bundle as a JSON object with the members `identity_public`,
/// `signed_prekey_public`, `signature`, `verifying_key` and `suite_id`,
/// the first four in base64 and the last in decimal. What is written
/// reads back as the same bundle. It fails where a field is too long to
/// be put in text, with `InvalidInput`, and not otherwise.
pub fn serialize_key_bundle(bundle: &KeyBundle) -> (r: Result<String, CryptoError>)
    ensures
        bundle_fits_text(bundle@) ==> (r matches Ok(json) && bundle_of_json(json@) == Some(bundle@)
            && json_object_members(json@) == Some(bundle_members(bundle_text(bundle@)))),
        !bundle_fits_text(bundle@) ==> (r matches Err(e) && e == CryptoError::InvalidInput),
{
    let text = bundle_to_text(bundle)?;
    let mut object = json_new_object();
    json_insert_string(&mut object, "identity_public", text.identity_public.as_str());
    json_insert_string(&mut object, "signed_prekey_public", text.signed_prekey_public.as_str());
    json_insert_string(&mut object, "signature", text.signature.as_str());
    json_insert_string(&mut object, "verifying_key", text.verifying_key.as_str());
    json_insert_string(&mut object, "suite_id", text.suite_id.as_str());
    proof {
        lemma_member_names_differ();
        let members = bundle_members(bundle_text(bundle@));
        assert(members.contains_key("identity_public"@));
        assert(members.contains_key("signed_prekey_public"@));
        assert(members.contains_key("signature"@));
        assert(members.contains_key("verifying_key"@));
        assert(members.contains_key("suite_id"@));
        assert(members["identity_public"@] == text@.identity_public);
        assert(members["signed_prekey_public"@] == text@.signed_prekey_public);
        assert(members["signature"@] == text@.signature);
        assert(members["verifying_key"@] == text@.verifying_key);
        assert(members["suite_id"@] == text@.suite_id);
        assert(bundle_of_members(members) == Some(bundle@));
    }
    match json_to_text(&object) {
        Some(json) => Ok(json),
        None => Err(CryptoError::Serialization),
    }
}

/// Reads a bundle from its JSON object. A text that stands for no bundle
/// fails with `Serialization`.
pub fn deserialize_key_bundle(json: &str) -> (r: Result<KeyBundle, CryptoError>)
    ensures
        match bundle_of_json(json@) {
            Some(bundle) => r matches Ok(b) && b@ == bundle,
            None => r matches Err(e) && e == CryptoError::Serialization,
        },
{
    let object = match json_parse_object(json) {
        Some(object) => object,
        None => {
            return Err(CryptoError::Serialization);
        },
    };
    let identity_public = json_get_string(&object, "identity_public");
    let signed_prekey_public = json_get_string(&object, "signed_prekey_public");
    let signature = json_get_string(&object, "signature");
    let verifying_key = json_get_string(&object, "verifying_key");
    let suite_id = json_get_string(&object, "suite_id");
    match (identity_public, signed_prekey_public, signature, verifying_key, suite_id) {
        (Some(identity_public), Some(signed_prekey_public), Some(signature), Some(verifying_key), Some(suite_id)) => {
            match (
                base64_decode(identity_public.as_str()),
                base64_decode(signed_prekey_public.as_str()),
                base64_decode(signature.as_str()),
                base64_decode(verifying_key.as_str()),
                text_to_u16(suite_id.as_str()),
            ) {
                (
                    Some(identity_public),
                    Some(signed_prekey_public),
                    Some(signature),
                    Some(verifying_key),
                    Some(suite_id),
                ) => Ok(KeyBundle { identity_public, signed_prekey_public, signature, verifying_key, suite_id }),
                _ => Err(CryptoError::Serialization),
            }
        },
        _ => Err(CryptoError::Serialization),
    }
}

/// The standard base64 text of bytes.
pub fn bytes_to_base64(bytes: &[u8]) -> (text: String)
    requires
        base64_fits(bytes@.len()),
    ensures
        text@ == base64_text(bytes@),
        base64_bytes(text@) == Some(bytes@),
        text@.len() == 4 * ((bytes@.len() + 2) / 3),
{
    base64_encode(bytes)
}

/// The bytes of a standard base64 text. A text that is none fails with
/// `Serialization`.
pub fn base64_to_bytes(base64_str: &str) -> (r: Result<Vec<u8>, CryptoError>)
    ensures
        match base64_bytes(base64_str@) {
            Some(bytes) => r matches Ok(b) && b@ == bytes,
            None => r matches Err(e) && e == CryptoError::Serialization,
        },
{
    match base64_decode(base64_str) {
        Some(bytes) => Ok(bytes),
        None => Err(CryptoError::Serialization),
    }
}

/// `len` random bytes. Fails with `InvalidInput` where no buffer of that
/// size can exist, and else with `KeyDerivation` only, where no
/// randomness could be had.
pub fn generate_random_bytes(len: usize) -> (r: Result<Vec<u8>, CryptoError>)
    ensures
        r matches Ok(bytes) ==> bytes@.len() == len,
        r matches Err(e) ==> (e == CryptoError::InvalidInput <==> len > isize::MAX) && (e
            == CryptoError::KeyDerivation <==> len <= isize::MAX),
{
    if len > isize::MAX as usize {
        return Err(CryptoError::InvalidInput);
    }
    match os_random_bytes(len) {
        Some(bytes) => Ok(bytes),
        None => Err(CryptoError::KeyDerivation),
    }
}

/// A client with fresh keys and no sessions: each of its three key pairs
/// is a pair of the suite, and its signed prekey is signed under its own
/// signing key. Where it fails, no randomness could be had
/// (`KeyDerivation`) or signing the public half of a KEM key pair of the
/// suite under a signing key of the suite failed.
pub fn create_client<P: CryptoProvider>() -> (r: Result<ClientCrypto<P>, CryptoError>)
    ensures
        r matches Ok(client) ==> {
            &&& client@.sessions.len() == 0
            &&& client@.well_formed::<P>()
            &&& P::spec_kem_public(client@.identity_key.0) == Ok::<Seq<u8>, CryptoError>(client@.identity_key.1)
            &&& P::spec_kem_public(client@.signed_prekey.0) == Ok::<Seq<u8>, CryptoError>(client@.signed_prekey.1)
            &&& P::spec_signature_public(client@.signing_key.0) == Ok::<Seq<u8>, CryptoError>(client@.signing_key.1)
            &&& P::spec_sign(client@.signing_key.0, client@.signed_prekey.1) == Ok::<Seq<u8>, CryptoError>(
                client@.prekey_signature,
            )
        },
        r matches Err(e) ==> e == CryptoError::KeyDerivation || exists|signing: Seq<u8>, prekey: (Seq<u8>, Seq<u8>)|
            P::spec_signature_public(signing) is Ok && P::spec_kem_public(prekey.0) == Ok::<Seq<u8>, CryptoError>(
                prekey.1,
            ) && #[trigger] P::spec_sign(signing, prekey.1) == Err::<Seq<u8>, CryptoError>(e),
{
    ClientCrypto::<P>::new()
}

/// The bundle a client registers with: the bundle of the client's keys,
/// whose signature verifies under its verifying key.
pub fn get_registration_bundle<P: CryptoProvider>(client: &ClientCrypto<P>) -> (r: Result<KeyBundle, CryptoError>)
    ensures
        r matches Ok(bundle) && bundle@ == client@.bundle::<P>(),
        client@.well_formed::<P>(),
{
    Ok(KeyBundle::from(client.get_registration_bundle()))
}

/// The text a string result holds, the error otherwise.
pub open spec fn text_result_view(r: Result<String, CryptoError>) -> Result<Seq<char>, CryptoError> {
    match r {
        Ok(text) => Ok(text@),
        Err(e) => Err(e),
    }
}

/// What becomes of the outcome of a decryption when the plaintext is read
/// as text: a plaintext that is UTF-8 is the text it encodes, one that is
/// not fails with `Serialization`, and an error stays what it is.
pub open spec fn text_of_outcome(outcome: Result<Seq<u8>, CryptoError>) -> Result<Seq<char>, CryptoError> {
    match outcome {
        Ok(plaintext) => if valid_utf8(plaintext) {
            Ok(decode_utf8(plaintext))
        } else {
            Err(CryptoError::Serialization)
        },
        Err(e) => Err(e),
    }
}

/// Whether `after` is what a session in the state `before` becomes by
/// decrypting the message to a plaintext that is no UTF-8.
pub open spec fn decrypted_to_no_text<P: CryptoProvider>(
    before: SessionState,
    after: SessionState,
    message: MessageView,
) -> bool {
    exists|plaintext: Seq<u8>| #[trigger] decrypted_by::<P>(before, after, message, plaintext) && !valid_utf8(plaintext)
}

/// The text that plaintext bytes encode. Bytes that are no UTF-8 fail
/// with `Serialization`.
pub fn plaintext_to_text(plaintext: Vec<u8>) -> (r: Result<String, CryptoError>)
    ensures
        valid_utf8(plaintext@) ==> (r matches Ok(text) && text@ == decode_utf8(plaintext@)),
        !valid_utf8(plaintext@) ==> (r matches Err(e) && e == CryptoError::Serialization),
{
    match string_from_utf8(plaintext) {
        Some(text) => Ok(text),
        None => Err(CryptoError::Serialization),
    }
}

/// The cryptographic core of one client over the suite `P`.
pub struct CryptoCore<P: CryptoProvider> {
    key_manager: KeyManager<P>,
    session_manager: SessionManager<P>,
    client: ClientCrypto<P>,
}

impl<P: CryptoProvider> CryptoCore<P> {
    /// What the key manager holds.
    pub closed spec fn keys(&self) -> KeyManagerState {
        self.key_manager@
    }

    /// What the session manager holds.
    pub closed spec fn sessions(&self) -> SessionManagerState {
        self.session_manager@
    }

    /// What the client holds.
    pub closed spec fn client_state(&self) -> ClientState {
        self.client@
    }

    /// The invariant of the core: its session manager is well formed.
    pub open spec fn well_formed(&self) -> bool {
        self.sessions().well_formed()
    }

    /// A core with an initialized key manager, no sessions, and a client
    /// with fresh keys. Where it fails, no randomness could be had
    /// (`KeyDerivation`), or initializing the key manager or signing the
    /// client's prekey failed.
    pub fn new() -> (r: Result<Self, CryptoError>)
        ensures
            r matches Ok(core) ==> {
                &&& core.well_formed()
                &&& core.keys().is_initialized()
                &&& core.sessions().sessions.len() == 0
                &&& core.client_state().sessions.len() == 0
            },
            r matches Err(e) ==> e == CryptoError::KeyDerivation || (exists|
                identity: (Seq<u8>, Seq<u8>),
                signing: (Seq<u8>, Seq<u8>),
                prekey: (Seq<u8>, Seq<u8>),
                now: i64,
            |
                #[trigger] crate::crypto::keys::initialize_step::<P>(
                    KeyManagerState::uninitialized(),
                    identity,
                    signing,
                    prekey,
                    now,
                ) == Err::<KeyManagerState, CryptoError>(e)) || (exists|signing: Seq<u8>, prekey: Seq<u8>|
                #[trigger] P::spec_sign(signing, prekey) == Err::<Seq<u8>, CryptoError>(e)),
    {
        let mut key_manager = KeyManager::<P>::new();
        key_manager.initialize()?;
        let client = ClientCrypto::<P>::new()?;
        Ok(CryptoCore { key_manager, session_manager: SessionManager::<P>::new(), client })
    }

    /// The key manager.
    pub fn key_manager(&self) -> (manager: &KeyManager<P>)
        ensures
            manager@ == self.keys(),
    {
        &self.key_manager
    }

    /// The key manager, to be changed: what the caller makes of it is what
    /// the core holds.
    pub fn key_manager_mut(&mut self) -> (manager: &mut KeyManager<P>)
        ensures
            (*manager)@ == old(self).keys(),
            final(self).keys() == (*final(manager))@,
            final(self).sessions() == old(self).sessions(),
            final(self).client_state() == old(self).client_state(),
    {
        &mut self.key_manager
    }

    /// The session manager.
    pub fn session_manager(&self) -> (manager: &SessionManager<P>)
        ensures
            manager@ == self.sessions(),
    {
        &self.session_manager
    }

    /// The session manager, to be changed: what the caller makes of it is
    /// what the core holds.
    pub fn session_manager_mut(&mut self) -> (manager: &mut SessionManager<P>)
        ensures
            (*manager)@ == old(self).sessions(),
            final(self).sessions() == (*final(manager))@,
            final(self).keys() == old(self).keys(),
            final(self).client_state() == old(self).client_state(),
    {
        &mut self.session_manager
    }

    /// The client.
    pub fn client(&self) -> (client: &ClientCrypto<P>)
        ensures
            client@ == self.client_state(),
    {
        &self.client
    }

    /// The client, to be changed: what the caller makes of it is what the
    /// core holds.
    pub fn client_mut(&mut self) -> (client: &mut ClientCrypto<P>)
        ensures
            (*client)@ == old(self).client_state(),
            final(self).client_state() == (*final(client))@,
            final(self).keys() == old(self).keys(),
            final(self).sessions() == old(self).sessions(),
    {
        &mut self.client
    }

    /// The bundle of the key manager, to register with.
    pub fn export_registration_bundle(&self) -> (r: Result<KeyBundle, CryptoError>)
        ensures
            match self.keys().bundle::<P>() {
                Ok(bundle) => r matches Ok(b) && b@ == bundle,
                Err(e) => r matches Err(f) && f == e,
            },
            self.keys().well_formed::<P>(),
            r matches Ok(b) ==> P::spec_verify(b@.verifying_key, b@.signed_prekey_public, b@.signature) == Ok::<
                (),
                CryptoError,
            >(()),
    {
        Ok(KeyBundle::from(self.key_manager.export_registration_bundle()?))
    }

    /// The bundle of the key manager in text. Before initialization it
    /// fails with `Uninitialized`; a field too long to be put in text
    /// fails with `InvalidInput`.
    pub fn export_registration_bundle_b64(&self) -> (r: Result<RegistrationBundleB64, CryptoError>)
        ensures
            match self.keys().bundle::<P>() {
                Ok(bundle) => if bundle_fits_text(bundle) {
                    r matches Ok(text) && text@ == bundle_text(bundle) && text_reads_as(text@, bundle)
                } else {
                    r matches Err(e) && e == CryptoError::InvalidInput
                },
                Err(e) => r matches Err(f) && f == e,
            },
    {
        let bundle = self.export_registration_bundle()?;
        bundle_to_text(&bundle)
    }

    /// The bundle of the key manager, for a peer to begin a session.
    pub fn export_public_bundle(&self) -> (r: Result<KeyBundle, CryptoError>)
        ensures
            match self.keys().bundle::<P>() {
                Ok(bundle) => r matches Ok(b) && b@ == bundle,
                Err(e) => r matches Err(f) && f == e,
            },
            self.keys().well_formed::<P>(),
            r matches Ok(b) ==> P::spec_verify(b@.verifying_key, b@.signed_prekey_public, b@.signature) == Ok::<
                (),
                CryptoError,
            >(()),
    {
        Ok(KeyBundle::from(self.key_manager.export_public_bundle()?))
    }

    /// Rotates the signed prekey of the key manager to a fresh key pair.
    /// On success the key manager is in the state that rotation to some
    /// key pair of the suite at some time gives; on failure the core is
    /// unchanged. Before initialization it fails with `Uninitialized`;
    /// after it, it fails where no randomness could be had
    /// (`KeyDerivation`) or as rotation to some key pair of the suite
    /// fails.
    pub fn rotate_prekey(&mut self) -> (r: Result<(), CryptoError>)
        ensures
            !old(self).keys().is_initialized() ==> (r matches Err(e) && e == CryptoError::Uninitialized),
            old(self).keys().is_initialized() ==> (r matches Err(e) ==> e == CryptoError::KeyDerivation || exists|
                key_pair: (Seq<u8>, Seq<u8>),
                now: i64,
            |
                now >= 0 && P::spec_kem_public(key_pair.0) == Ok::<Seq<u8>, CryptoError>(key_pair.1)
                    && #[trigger] crate::crypto::keys::rotate_step::<P>(old(self).keys(), key_pair, now) == Err::<
                    KeyManagerState,
                    CryptoError,
                >(e)),
            r is Err ==> final(self).keys() == old(self).keys(),
            r is Ok ==> exists|key_pair: (Seq<u8>, Seq<u8>), now: i64|
                now >= 0 && P::spec_kem_public(key_pair.0) == Ok::<Seq<u8>, CryptoError>(key_pair.1)
                    && #[trigger] crate::crypto::keys::rotate_step::<P>(old(self).keys(), key_pair, now) == Ok::<
                    KeyManagerState,
                    CryptoError,
                >(final(self).keys()),
            final(self).sessions() == old(self).sessions(),
            final(self).client_state() == old(self).client_state(),
    {
        self.key_manager.rotate_signed_prekey()
    }

    /// Signs data under the signing key of the key manager. The signature
    /// verifies for the data under its verifying key.
    pub fn sign_data(&self, data: &[u8]) -> (r: Result<Vec<u8>, CryptoError>)
        ensures
            bytes_result_view(r) == match self.keys().signing_key {
                Some(pair) => P::spec_sign(pair.0, data@),
                None => Err(CryptoError::Uninitialized),
            },
            self.keys().well_formed::<P>(),
            r matches Ok(signature) ==> self.keys().signing_key is Some && P::spec_verify(
                self.keys().signing_key->Some_0.1,
                data@,
                signature@,
            ) == Ok::<(), CryptoError>(()),
    {
        self.key_manager.sign(data)
    }

    /// Whether the session manager holds a session for a contact.
    pub fn has_session(&self, contact_id: &str) -> (held: bool)
        requires
            self.well_formed(),
        ensures
            held == has_contact(self.sessions().sessions, contact_id@),
    {
        self.session_manager.has_session(contact_id)
    }

    /// How many sessions the session manager holds.
    pub fn active_sessions_count(&self) -> (count: usize)
        ensures
            count == self.sessions().sessions.len(),
    {
        self.session_manager.session_count()
    }

    /// Drops the sessions of the session manager that were not used
    /// within `max_age_seconds` before now.
    pub fn cleanup_old_sessions(&mut self, max_age_seconds: i64)
        requires
            old(self).well_formed(),
        ensures
            final(self).well_formed(),
            exists|now: i64|
                now >= 0 && final(self).sessions() == (SessionManagerState {
                    sessions: #[trigger] crate::crypto::session::recently_used(
                        old(self).sessions().sessions,
                        max_age_seconds,
                        now,
                    ),
                    ..old(self).sessions()
                }),
            final(self).keys() == old(self).keys(),
            final(self).client_state() == old(self).client_state(),
    {
        self.session_manager.cleanup_sessions_older_than(max_age_seconds);
    }

    /// Begins a session of the client with a contact, as the initiator,
    /// and returns its id. On failure the core is unchanged; where the
    /// handshake fails, it fails as the handshake does.
    pub fn init_session(&mut self, contact_id: &str, remote_bundle: &KeyBundle) -> (r: Result<String, CryptoError>)
        ensures
            r is Err ==> final(self).client_state() == old(self).client_state(),
            old(self).client_state().handshake::<P>(remote_bundle@) matches Err(e) ==> (r matches Err(f) && f == e),
            r matches Ok(id) ==> has_session_id(final(self).client_state().sessions, id@),
            old(self).client_state().handshake::<P>(remote_bundle@) is Ok ==> (r matches Err(e) ==> e == CryptoError::KeyDerivation || exists|
                dh_private: Seq<u8>,
                dh_public: Seq<u8>,
                session_id: Seq<char>,
            |
                #[trigger] new_sending_state::<P>(
                    remote_bundle@.suite_id,
                    old(self).client_state().handshake::<P>(remote_bundle@)->Ok_0,
                    remote_bundle@.identity_public,
                    old(self).client_state().identity_key.0,
                    contact_id@,
                    dh_private,
                    dh_public,
                    session_id,
                ) == Err::<SessionState, CryptoError>(e)),
            r matches Ok(id) ==> old(self).client_state().handshake::<P>(remote_bundle@) is Ok && exists|
                session: SessionState,
            |
                #[trigger] is_new_sending_state::<P>(
                    session,
                    remote_bundle@.suite_id,
                    old(self).client_state().handshake::<P>(remote_bundle@)->Ok_0,
                    remote_bundle@.identity_public,
                    old(self).client_state().identity_key.0,
                    contact_id@,
                ) && id@ == session.session_id && final(self).client_state() == (ClientState {
                    sessions: with_session(old(self).client_state().sessions, session),
                    ..old(self).client_state()
                }),
            final(self).keys() == old(self).keys(),
            final(self).sessions() == old(self).sessions(),
    {
        let public_bundle = remote_bundle.to_public_bundle();
        let r = self.client.init_session(contact_id, &public_bundle);
        proof {
            if r is Ok {
                let sessions = final(self).client_state().sessions;
                assert(sessions.last().0 == r->Ok_0@);
                assert(sessions[sessions.len() - 1].0 == r->Ok_0@);
            }
        }
        r
    }

    /// Begins a session of the client with a contact, as the responder,
    /// from the first message received, and returns its id. On failure
    /// the core is unchanged; where the handshake fails, it fails as the
    /// handshake does.
    pub fn init_receiving_session(
        &mut self,
        contact_id: &str,
        remote_bundle: &KeyBundle,
        first_message: &EncryptedRatchetMessage,
    ) -> (r: Result<String, CryptoError>)
        ensures
            r is Err ==> final(self).client_state() == old(self).client_state(),
            old(self).client_state().handshake::<P>(remote_bundle@) matches Err(e) ==> (r matches Err(f) && f == e),
            r matches Ok(id) ==> has_session_id(final(self).client_state().sessions, id@),
            old(self).client_state().handshake::<P>(remote_bundle@) is Ok ==> (r matches Err(e) ==> e == CryptoError::KeyDerivation || exists|
                dh_private: Seq<u8>,
                dh_public: Seq<u8>,
                session_id: Seq<char>,
            |
                #[trigger] new_receiving_state::<P>(
                    remote_bundle@.suite_id,
                    old(self).client_state().handshake::<P>(remote_bundle@)->Ok_0,
                    old(self).client_state().identity_key.0,
                    first_message@,
                    contact_id@,
                    dh_private,
                    dh_public,
                    session_id,
                ) == Err::<SessionState, CryptoError>(e)),
            r matches Ok(id) ==> old(self).client_state().handshake::<P>(remote_bundle@) is Ok && exists|
                session: SessionState,
            |
                #[trigger] is_new_receiving_state::<P>(
                    session,
                    remote_bundle@.suite_id,
                    old(self).client_state().handshake::<P>(remote_bundle@)->Ok_0,
                    old(self).client_state().identity_key.0,
                    first_message@,
                    contact_id@,
                ) && id@ == session.session_id && final(self).client_state() == (ClientState {
                    sessions: with_session(old(self).client_state().sessions, session),
                    ..old(self).client_state()
                }),
            final(self).keys() == old(self).keys(),
            final(self).sessions() == old(self).sessions(),
    {
        let public_bundle = remote_bundle.to_public_bundle();
        let r = self.client.init_receiving_session(contact_id, &public_bundle, first_message);
        proof {
            if r is Ok {
                let sessions = final(self).client_state().sessions;
                assert(sessions[sessions.len() - 1].0 == r->Ok_0@);
            }
        }
        r
    }

    /// Encrypts a text in the session of the client with the id. Without
    /// such a session it fails with `SessionNotFound`. On success that
    /// session has encrypted the bytes of the text to the message; on
    /// failure the core is unchanged.
    pub fn encrypt_message(&mut self, session_id: &str, plaintext: &str) -> (r: Result<
        EncryptedRatchetMessage,
        CryptoError,
    >)
        ensures
            r is Err ==> final(self).client_state() == old(self).client_state(),
            !has_session_id(old(self).client_state().sessions, session_id@) ==> (r matches Err(e) && e
                == CryptoError::SessionNotFound),
            r matches Ok(message) ==> has_session_id(old(self).client_state().sessions, session_id@) && ({
                let i = session_index(old(self).client_state().sessions, session_id@);
                &&& i < final(self).client_state().sessions.len()
                &&& encrypted_by::<P>(
                    old(self).client_state().sessions[i].1,
                    final(self).client_state().sessions[i].1,
                    encode_utf8(plaintext@),
                    message@,
                )
            }),
            final(self).keys() == old(self).keys(),
            final(self).sessions() == old(self).sessions(),
    {
        self.client.encrypt_ratchet_message(session_id, plaintext.as_bytes())
    }

    /// Decrypts a message in the session of the client with the id, to
    /// text. Without such a session it fails with `SessionNotFound`;
    /// where the session fails, the core is unchanged. Where the message
    /// asks for no DH-ratchet step, the outcome is what the state of the
    /// session and the time decide, read as text. A plaintext that is no
    /// UTF-8 fails with `Serialization`, after the session has decrypted
    /// the message: that is the one failure that changes the session.
    pub fn decrypt_message(&mut self, session_id: &str, message: &EncryptedRatchetMessage) -> (r: Result<
        String,
        CryptoError,
    >)
        ensures
            has_session_id(old(self).client_state().sessions, session_id@) ==> ({
                let i = session_index(old(self).client_state().sessions, session_id@);
                &&& i < final(self).client_state().sessions.len()
                &&& final(self).client_state() == (ClientState {
                    sessions: old(self).client_state().sessions.update(
                        i,
                        (session_id@, final(self).client_state().sessions[i].1),
                    ),
                    ..old(self).client_state()
                })
                &&& !needs_ratchet(old(self).client_state().sessions[i].1, message@) ==> exists|
                    outcome: Result<Seq<u8>, CryptoError>,
                |
                    #[trigger] decrypted_on_chain::<P>(
                        old(self).client_state().sessions[i].1,
                        final(self).client_state().sessions[i].1,
                        message@,
                        outcome,
                    ) && text_result_view(r) == text_of_outcome(outcome)
            }),
            !has_session_id(old(self).client_state().sessions, session_id@) ==> (r matches Err(e) && e
                == CryptoError::SessionNotFound && final(self).client_state() == old(self).client_state()),
            r matches Ok(text) ==> has_session_id(old(self).client_state().sessions, session_id@) && ({
                let i = session_index(old(self).client_state().sessions, session_id@);
                &&& i < final(self).client_state().sessions.len()
                &&& exists|plaintext: Seq<u8>|
                    #[trigger] decrypted_by::<P>(
                        old(self).client_state().sessions[i].1,
                        final(self).client_state().sessions[i].1,
                        message@,
                        plaintext,
                    ) && valid_utf8(plaintext) && text@ == decode_utf8(plaintext)
            }),
            r matches Err(e) ==> final(self).client_state() == old(self).client_state() || (e
                == CryptoError::Serialization && has_session_id(old(self).client_state().sessions, session_id@) && ({
                let i = session_index(old(self).client_state().sessions, session_id@);
                &&& i < final(self).client_state().sessions.len()
                &&& decrypted_to_no_text::<P>(
                    old(self).client_state().sessions[i].1,
                    final(self).client_state().sessions[i].1,
                    message@,
                )
            })),
            final(self).keys() == old(self).keys(),
            final(self).sessions() == old(self).sessions(),
    {
        let decrypted = self.client.decrypt_ratchet_message(session_id, message);
        let ghost outcome = bytes_result_view(decrypted);
        let plaintext = decrypted?;
        let ghost bytes = plaintext@;
        let r = plaintext_to_text(plaintext);
        proof {
            let i = session_index(old(self).client_state().sessions, session_id@);
            assert(text_result_view(r) == text_of_outcome(outcome));
            assert(decrypted_by::<P>(
                old(self).client_state().sessions[i].1,
                final(self).client_state().sessions[i].1,
                message@,
                bytes,
            ));
        }
        r
    }
}

} // verus!
