//! The key manager: long-lived identity and signing keys, the current
//! signed prekey, and the history of the prekeys it replaced.

use vstd::prelude::*;
use core::marker::PhantomData;
use std::collections::HashMap;
use crate::crypto::provider::{bytes_result_view, CryptoProvider};
use crate::crypto::x3dh::{bundle_of_keys, BundleView, PublicKeyBundle, RegistrationBundle};
use crate::error::CryptoError;
use crate::utils::bytes::bytes_equal;
use crate::utils::secret::{wipe, SecretBytes};
use crate::utils::time::current_timestamp;

verus! {

broadcast use vstd::std_specs::hash::group_hash_axioms;

/// For how many seconds a replaced prekey is kept: 30 days.
pub const PREKEY_RETENTION_SECONDS: i64 = 2592000;

/// What a signed prekey holds, as plain values.
pub struct PrekeyView {
    pub private_key: Seq<u8>,
    pub public_key: Seq<u8>,
    pub signature: Seq<u8>,
    pub created_at: i64,
    pub key_id: u32,
}

/// A signed prekey with what is known of it.
#[derive(Debug)]
pub struct PrekeyStore {
    /// The KEM key pair, private key first.
    pub key_pair: (Vec<u8>, Vec<u8>),
    /// The signature of the public key under the manager's signing key.
    pub signature: Vec<u8>,
    /// When the prekey was made.
    pub created_at: i64,
    /// The number of the prekey: later prekeys have larger numbers.
    pub key_id: u32,
}

impl View for PrekeyStore {
    type V = PrekeyView;

    open spec fn view(&self) -> PrekeyView {
        PrekeyView {
            private_key: self.key_pair.0@,
            public_key: self.key_pair.1@,
            signature: self.signature@,
            created_at: self.created_at,
            key_id: self.key_id,
        }
    }
}

impl Drop for PrekeyStore {
    fn drop(&mut self)
        opens_invariants none
        no_unwind
    {
        wipe(&mut self.key_pair.0);
    }
}

impl Clone for PrekeyStore {
    fn clone(&self) -> (copy: Self)
        ensures
            copy@ == self@,
    {
        PrekeyStore {
            key_pair: (self.key_pair.0.clone(), self.key_pair.1.clone()),
            signature: self.signature.clone(),
            created_at: self.created_at,
            key_id: self.key_id,
        }
    }
}

/// The prekeys of a history, by their numbers.
pub open spec fn prekeys_view(history: Map<u32, PrekeyStore>) -> Map<u32, PrekeyView> {
    history.map_values(|p: PrekeyStore| p@)
}

/// The bytes of an optional key pair, private key first.
pub open spec fn key_pair_view(pair: Option<(SecretBytes, Vec<u8>)>) -> Option<(Seq<u8>, Seq<u8>)> {
    match pair {
        Some(p) => Some((p.0@, p.1@)),
        None => None,
    }
}

/// The prekey an optional store holds.
pub open spec fn optional_prekey_view(prekey: Option<PrekeyStore>) -> Option<PrekeyView> {
    match prekey {
        Some(p) => Some(p@),
        None => None,
    }
}

/// What a key manager holds.
pub struct KeyManagerState {
    /// The identity KEM key pair, private key first.
    pub identity_key: Option<(Seq<u8>, Seq<u8>)>,
    /// The signature key pair, signing key first.
    pub signing_key: Option<(Seq<u8>, Seq<u8>)>,
    pub current_signed_prekey: Option<PrekeyView>,
    /// The replaced prekeys that are still kept, by their numbers.
    pub old_prekeys: Map<u32, PrekeyView>,
    /// The number the next prekey will get.
    pub next_prekey_id: u32,
}

/// Whether a prekey made at `created_at` is younger than `max_age_seconds`
/// at the time `now`.
pub open spec fn is_recent(created_at: i64, max_age_seconds: i64, now: i64) -> bool {
    now - created_at < max_age_seconds
}

/// The prekeys of a history that are younger than `max_age_seconds`.
pub open spec fn recent_prekeys(history: Map<u32, PrekeyView>, max_age_seconds: i64, now: i64) -> Map<u32, PrekeyView> {
    Map::new(
        |k: u32| history.contains_key(k) && is_recent(history[k].created_at, max_age_seconds, now),
        |k: u32| history[k],
    )
}

/// Whether every prekey of a history is found under its own number, and
/// every number is below a bound.
pub open spec fn numbered_below(history: Map<u32, PrekeyView>, bound: int) -> bool {
    forall|k: u32| history.contains_key(k) ==> (#[trigger] history[k]).key_id == k && k < bound
}

/// Whether two byte strings are a KEM key pair of the suite, private half
/// first: the second is the public key of the first and has the length
/// the suite gives its public keys.
pub open spec fn is_kem_pair_of<P: CryptoProvider>(private_key: Seq<u8>, public_key: Seq<u8>) -> bool {
    &&& P::spec_kem_public(private_key) == Ok::<Seq<u8>, CryptoError>(public_key)
    &&& public_key.len() == P::spec_kem_public_key_len()
}

/// Whether every prekey of a history is a key pair of the suite.
pub open spec fn pairs_of_suite<P: CryptoProvider>(history: Map<u32, PrekeyView>) -> bool {
    forall|k: u32|
        history.contains_key(k) ==> is_kem_pair_of::<P>((#[trigger] history[k]).private_key, history[k].public_key)
}

impl KeyManagerState {
    /// The state of a manager that was made and not yet initialized.
    pub open spec fn uninitialized() -> KeyManagerState {
        KeyManagerState {
            identity_key: None,
            signing_key: None,
            current_signed_prekey: None,
            old_prekeys: Map::empty(),
            next_prekey_id: 1,
        }
    }

    /// Whether the manager was initialized.
    pub open spec fn is_initialized(self) -> bool {
        self.signing_key is Some
    }

    /// The invariant of every reachable state. Identity key, signing key
    /// and current prekey are there together or not at all. Every key
    /// pair is a pair of the suite, and every KEM public key has the
    /// suite's length. Prekey numbers start at 1. A replaced
    /// prekey is kept under its number, which is below the number of the
    /// current prekey, and that is one below the next. The current
    /// prekey's signature is the signature of its public half under the
    /// signing key, and verifies under the verifying key.
    pub open spec fn well_formed<P: CryptoProvider>(self) -> bool {
        &&& self.identity_key is Some <==> self.signing_key is Some
        &&& self.current_signed_prekey is Some <==> self.signing_key is Some
        &&& self.next_prekey_id >= 1
        &&& self.old_prekeys.dom().finite()
        &&& pairs_of_suite::<P>(self.old_prekeys)
        &&& self.identity_key is Some ==> is_kem_pair_of::<P>(self.identity_key->Some_0.0, self.identity_key->Some_0.1)
        &&& self.signing_key is Some ==> P::spec_signature_public(self.signing_key->Some_0.0) == Ok::<
            Seq<u8>,
            CryptoError,
        >(self.signing_key->Some_0.1)
        &&& match self.current_signed_prekey {
            Some(current) => {
                &&& current.key_id + 1 == self.next_prekey_id
                &&& numbered_below(self.old_prekeys, current.key_id as int)
                &&& is_kem_pair_of::<P>(current.private_key, current.public_key)
                &&& self.signing_key is Some
                &&& P::spec_sign(self.signing_key->Some_0.0, current.public_key) == Ok::<Seq<u8>, CryptoError>(
                    current.signature,
                )
                &&& P::spec_verify(self.signing_key->Some_0.1, current.public_key, current.signature) == Ok::<
                    (),
                    CryptoError,
                >(())
            },
            None => numbered_below(self.old_prekeys, self.next_prekey_id as int),
        }
    }

    /// The history with the current prekey, if there is one, under its
    /// number.
    pub open spec fn history_with_current(self) -> Map<u32, PrekeyView> {
        match self.current_signed_prekey {
            Some(current) => self.old_prekeys.insert(current.key_id, current),
            None => self.old_prekeys,
        }
    }

    /// The prekey with a number: the current one where it has the number,
    /// else the one the history keeps under it.
    pub open spec fn prekey(self, key_id: u32) -> Option<PrekeyView> {
        if self.current_signed_prekey is Some && self.current_signed_prekey->Some_0.key_id == key_id {
            self.current_signed_prekey
        } else if self.old_prekeys.contains_key(key_id) {
            Some(self.old_prekeys[key_id])
        } else {
            None
        }
    }

    /// The bundle the manager publishes: the public halves of the identity
    /// key and the current prekey, the prekey's signature, the verifying
    /// key and the suite.
    pub open spec fn bundle<P: CryptoProvider>(self) -> Result<BundleView, CryptoError> {
        if self.identity_key is Some && self.signing_key is Some && self.current_signed_prekey is Some {
            Ok(
                BundleView {
                    identity_public: self.identity_key->Some_0.1,
                    signed_prekey_public: self.current_signed_prekey->Some_0.public_key,
                    signature: self.current_signed_prekey->Some_0.signature,
                    verifying_key: self.signing_key->Some_0.1,
                    suite_id: P::spec_suite_id(),
                },
            )
        } else {
            Err(CryptoError::Uninitialized)
        }
    }
}

/// Rotation of the signed prekey with a given key pair at a given time:
/// the pair is signed and becomes the current prekey under the next
/// number, the prekey it replaces joins the history, and of the history
/// only what is younger than [`PREKEY_RETENTION_SECONDS`] is kept. What is
/// no key pair of the suite is refused with `InvalidInput`.
pub open spec fn rotate_step<P: CryptoProvider>(state: KeyManagerState, key_pair: (Seq<u8>, Seq<u8>), now: i64) -> Result<
    KeyManagerState,
    CryptoError,
> {
    match state.signing_key {
        None => Err(CryptoError::Uninitialized),
        Some(signing) => if P::spec_kem_public(key_pair.0) != Ok::<Seq<u8>, CryptoError>(key_pair.1) {
            Err(CryptoError::InvalidInput)
        } else {
            match P::spec_sign(signing.0, key_pair.1) {
                Err(e) => Err(e),
                Ok(signature) => if state.next_prekey_id == u32::MAX {
                    Err(CryptoError::InvalidInput)
                } else {
                    Ok(
                        KeyManagerState {
                            current_signed_prekey: Some(
                                PrekeyView {
                                    private_key: key_pair.0,
                                    public_key: key_pair.1,
                                    signature,
                                    created_at: now,
                                    key_id: state.next_prekey_id,
                                },
                            ),
                            old_prekeys: recent_prekeys(
                                state.history_with_current(),
                                PREKEY_RETENTION_SECONDS,
                                now,
                            ),
                            next_prekey_id: (state.next_prekey_id + 1) as u32,
                            ..state
                        },
                    )
                },
            }
        },
    }
}

/// Initialization with given key pairs at a given time: the identity and
/// signing keys are put in place and the signed prekey is rotated. What
/// is no key pair of the suite is refused with `InvalidInput`.
pub open spec fn initialize_step<P: CryptoProvider>(
    state: KeyManagerState,
    identity: (Seq<u8>, Seq<u8>),
    signing: (Seq<u8>, Seq<u8>),
    prekey: (Seq<u8>, Seq<u8>),
    now: i64,
) -> Result<KeyManagerState, CryptoError> {
    if P::spec_kem_public(identity.0) != Ok::<Seq<u8>, CryptoError>(identity.1) || P::spec_signature_public(
        signing.0,
    ) != Ok::<Seq<u8>, CryptoError>(signing.1) {
        Err(CryptoError::InvalidInput)
    } else {
        rotate_step::<P>(
            KeyManagerState { identity_key: Some(identity), signing_key: Some(signing), ..state },
            prekey,
            now,
        )
    }
}

/// A rotation that succeeds gives the new prekey the number after that of
/// the prekey it replaces, and leaves the identity and signing keys as they
/// are. No number is given twice: every prekey of the history has a number
/// below that of the new prekey. Where neither the replaced prekey nor any
/// prekey of the history has reached the retention age, the replaced prekey
/// joins the history, which grows by one, and is found under its number.
pub proof fn lemma_rotation_numbers_prekeys<P: CryptoProvider>(
    state: KeyManagerState,
    key_pair: (Seq<u8>, Seq<u8>),
    now: i64,
)
    requires
        state.well_formed::<P>(),
        state.is_initialized(),
        rotate_step::<P>(state, key_pair, now) is Ok,
    ensures
        ({
            let next = rotate_step::<P>(state, key_pair, now)->Ok_0;
            let replaced = state.current_signed_prekey->Some_0;
            let current = next.current_signed_prekey->Some_0;
            &&& next.is_initialized()
            &&& next.identity_key == state.identity_key
            &&& next.signing_key == state.signing_key
            &&& current.key_id == replaced.key_id + 1
            &&& current.private_key == key_pair.0 && current.public_key == key_pair.1 && current.created_at == now
            &&& next.prekey(current.key_id) == Some(current)
            &&& next.old_prekeys.dom().finite()
            &&& next.old_prekeys.len() <= state.old_prekeys.len() + 1
            &&& numbered_below(next.old_prekeys, current.key_id as int)
            &&& pairs_of_suite::<P>(next.old_prekeys)
            &&& (forall|k: u32| #[trigger]
                state.history_with_current().contains_key(k) ==> is_recent(
                    state.history_with_current()[k].created_at,
                    PREKEY_RETENTION_SECONDS,
                    now,
                )) ==> {
                &&& next.old_prekeys == state.old_prekeys.insert(replaced.key_id, replaced)
                &&& next.old_prekeys.len() == state.old_prekeys.len() + 1
                &&& next.prekey(replaced.key_id) == Some(replaced)
                &&& forall|k: u32| state.prekey(k) is Some ==> next.prekey(k) == state.prekey(k)
            }
        }),
{
    let next = rotate_step::<P>(state, key_pair, now)->Ok_0;
    let replaced = state.current_signed_prekey->Some_0;
    let whole = state.history_with_current();
    assert(whole == state.old_prekeys.insert(replaced.key_id, replaced));
    if state.old_prekeys.contains_key(replaced.key_id) {
        assert(state.old_prekeys[replaced.key_id].key_id < replaced.key_id);
    }
    assert(whole.dom().finite());
    assert(whole.len() == state.old_prekeys.len() + 1);
    assert(next.old_prekeys.dom().subset_of(whole.dom()));
    vstd::set_lib::lemma_len_subset(next.old_prekeys.dom(), whole.dom());
    assert forall|k: u32| next.old_prekeys.contains_key(k) implies (#[trigger] next.old_prekeys[k]).key_id == k && k
        < next.current_signed_prekey->Some_0.key_id && P::spec_kem_public(next.old_prekeys[k].private_key) == Ok::<
        Seq<u8>,
        CryptoError,
    >(next.old_prekeys[k].public_key) by {
        assert(whole.contains_key(k));
        if k != replaced.key_id {
            assert(state.old_prekeys.contains_key(k));
            assert(whole[k] == state.old_prekeys[k]);
        }
    }
    if forall|k: u32| #[trigger]
        whole.contains_key(k) ==> is_recent(whole[k].created_at, PREKEY_RETENTION_SECONDS, now) {
        assert(next.old_prekeys =~= whole);
    }
}

/// Whether two byte strings are a KEM key pair of the suite, private half
/// first.
pub(crate) fn is_kem_pair<P: CryptoProvider>(private_key: &Vec<u8>, public_key: &Vec<u8>) -> (valid: bool)
    ensures
        valid == (P::spec_kem_public(private_key@) == Ok::<Seq<u8>, CryptoError>(public_key@)),
        valid ==> is_kem_pair_of::<P>(private_key@, public_key@),
{
    match P::from_private_key_to_public_key(private_key) {
        Ok(derived) => bytes_equal(derived.as_slice(), public_key.as_slice()),
        Err(_) => false,
    }
}

/// Whether two byte strings are a signature key pair of the suite,
/// signing key first.
pub(crate) fn is_signature_pair<P: CryptoProvider>(private_key: &Vec<u8>, public_key: &Vec<u8>) -> (valid: bool)
    ensures
        valid == (P::spec_signature_public(private_key@) == Ok::<Seq<u8>, CryptoError>(public_key@)),
{
    match P::from_signing_key_to_verifying_key(private_key) {
        Ok(derived) => bytes_equal(derived.as_slice(), public_key.as_slice()),
        Err(_) => false,
    }
}

/// A copy of a key pair.
fn clone_key_pair(pair: &(SecretBytes, Vec<u8>)) -> (copy: (SecretBytes, Vec<u8>))
    ensures
        copy.0@ == pair.0@,
        copy.1@ == pair.1@,
{
    (pair.0.clone(), pair.1.clone())
}

/// Drops from a history the prekeys that are not younger than
/// `max_age_seconds`.
fn retain_recent(history: &mut HashMap<u32, PrekeyStore>, max_age_seconds: i64, now: i64)
    ensures
        prekeys_view(final(history)@) == recent_prekeys(prekeys_view(old(history)@), max_age_seconds, now),
{
    let ghost before = history@;
    let mut expired: Vec<u32> = Vec::new();
    for k in it: history.keys()
        invariant
            history@ == before,
            it.seq().unref().to_set() == before.dom(),
            forall|i: int|
                0 <= i < expired@.len() ==> before.contains_key(#[trigger] expired@[i]) && !is_recent(
                    before[expired@[i]].created_at,
                    max_age_seconds,
                    now,
                ),
            forall|j: int|
                0 <= j < it.index() ==> (!is_recent(
                    before[*(#[trigger] it.seq()[j])].created_at,
                    max_age_seconds,
                    now,
                ) ==> expired@.contains(*it.seq()[j])),
            it.index() == it.seq().len() ==> forall|key: u32|
                before.contains_key(key) && !is_recent(before[key].created_at, max_age_seconds, now)
                    ==> expired@.contains(key),
    {
        assert(it.seq().unref().contains(*k));
        assert(before.dom().contains(*k));
        match history.get(k) {
            Some(entry) => {
                if !((now as i128) - (entry.created_at as i128) < max_age_seconds as i128) {
                    let ghost found = expired@;
                    expired.push(*k);
                    assert(expired@[expired@.len() - 1] == *k);
                    assert forall|j: int|
                        0 <= j < it.index() + 1 && !is_recent(
                            before[*(#[trigger] it.seq()[j])].created_at,
                            max_age_seconds,
                            now,
                        ) implies expired@.contains(*it.seq()[j]) by {
                        if j < it.index() {
                            let w = choose|w: int| 0 <= w < found.len() && #[trigger] found[w] == *it.seq()[j];
                            assert(expired@[w] == *it.seq()[j]);
                        }
                    }
                }
            },
            None => {},
        }
        assert forall|key: u32|
            it.index() + 1 == it.seq().len() && before.contains_key(key) && !is_recent(
                before[key].created_at,
                max_age_seconds,
                now,
            ) implies expired@.contains(key) by {
            assert(it.seq().unref().to_set().contains(key));
            assert(it.seq().unref().contains(key));
            assert(exists|j: int| 0 <= j < it.seq().len() && *(#[trigger] it.seq()[j]) == key) by {
                let j = it.seq().unref().index_of(key);
                assert(it.seq().unref()[j] == key);
                assert(*it.seq()[j] == key);
            }
        }
    }
    let mut i: usize = 0;
    while i < expired.len()
        invariant
            i <= expired@.len(),
            forall|k: u32|
                history@.contains_key(k) <==> before.contains_key(k) && !expired@.take(i as int).contains(k),
            forall|k: u32| history@.contains_key(k) ==> history@[k] == before[k],
            forall|key: u32|
                before.contains_key(key) && !is_recent(before[key].created_at, max_age_seconds, now)
                    ==> expired@.contains(key),
            forall|i: int|
                0 <= i < expired@.len() ==> before.contains_key(#[trigger] expired@[i]) && !is_recent(
                    before[expired@[i]].created_at,
                    max_age_seconds,
                    now,
                ),
        decreases expired@.len() - i,
    {
        let ghost previous = history@;
        history.remove(&expired[i]);
        proof {
            let gone = expired@[i as int];
            assert(history@ == previous.remove(gone));
            assert(expired@.take(i + 1) =~= expired@.take(i as int).push(gone));
            assert forall|k: u32|
                history@.contains_key(k) <==> before.contains_key(k) && !expired@.take(i + 1).contains(k) by {
                if k == gone {
                    assert(expired@.take(i + 1)[i as int] == gone);
                } else if previous.contains_key(k) {
                    if expired@.take(i + 1).contains(k) {
                        let w = choose|w: int| 0 <= w < i + 1 && #[trigger] expired@.take(i + 1)[w] == k;
                        assert(expired@.take(i as int)[w] == k);
                    }
                }
            }
        }
        i += 1;
    }
    proof {
        assert(expired@.take(expired@.len() as int) =~= expired@);
        let target = recent_prekeys(prekeys_view(before), max_age_seconds, now);
        assert forall|k: u32| prekeys_view(history@).contains_key(k) <==> target.contains_key(k) by {
            if before.contains_key(k) && expired@.contains(k) {
                let w = choose|w: int| 0 <= w < expired@.len() && #[trigger] expired@[w] == k;
            }
        }
        assert(prekeys_view(history@) =~= target);
    }
}

/// The keys of one client over the suite `P`.
pub struct KeyManager<P: CryptoProvider> {
    identity_key: Option<(SecretBytes, Vec<u8>)>,
    signing_key: Option<(SecretBytes, Vec<u8>)>,
    current_signed_prekey: Option<PrekeyStore>,
    old_prekeys: HashMap<u32, PrekeyStore>,
    next_prekey_id: u32,
    _phantom: PhantomData<P>,
}

impl<P: CryptoProvider> View for KeyManager<P> {
    type V = KeyManagerState;

    closed spec fn view(&self) -> KeyManagerState {
        KeyManagerState {
            identity_key: key_pair_view(self.identity_key),
            signing_key: key_pair_view(self.signing_key),
            current_signed_prekey: optional_prekey_view(self.current_signed_prekey),
            old_prekeys: prekeys_view(self.old_prekeys@),
            next_prekey_id: self.next_prekey_id,
        }
    }
}

impl<P: CryptoProvider> KeyManager<P> {
    #[verifier::type_invariant]
    spec fn manager_invariant(self) -> bool {
        self@.well_formed::<P>()
    }

    /// A manager without keys. Only `initialize` makes it usable.
    pub fn new() -> (manager: Self)
        ensures
            manager@ == KeyManagerState::uninitialized(),
    {
        let history: HashMap<u32, PrekeyStore> = HashMap::new();
        assert(prekeys_view(history@) =~= Map::empty());
        assert(prekeys_view(history@).dom() =~= history@.dom());
        let manager = KeyManager {
            identity_key: None,
            signing_key: None,
            current_signed_prekey: None,
            old_prekeys: history,
            next_prekey_id: 1,
            _phantom: PhantomData,
        };
        assert(manager@.old_prekeys =~= Map::empty());
        manager
    }

    /// Whether the manager was initialized.
    pub fn is_initialized(&self) -> (initialized: bool)
        ensures
            initialized == self@.is_initialized(),
            self@.well_formed::<P>(),
    {
        proof {
            use_type_invariant(self);
        }
        self.signing_key.is_some()
    }

    /// Puts given identity and signing key pairs in place and rotates the
    /// signed prekey to a given key pair, at a given time. Each pair has
    /// its private half first, and must be a pair of the suite: the public
    /// half is derived again and compared. On failure the manager is
    /// unchanged.
    pub fn initialize_with_keys(
        &mut self,
        identity: (Vec<u8>, Vec<u8>),
        signing: (Vec<u8>, Vec<u8>),
        prekey: (Vec<u8>, Vec<u8>),
        now: i64,
    ) -> (r: Result<(), CryptoError>)
        ensures
            match initialize_step::<P>(
                old(self)@,
                (identity.0@, identity.1@),
                (signing.0@, signing.1@),
                (prekey.0@, prekey.1@),
                now,
            ) {
                Ok(state) => r is Ok && final(self)@ == state,
                Err(e) => r matches Err(f) && f == e && final(self)@ == old(self)@,
            },
    {
        let identity = (SecretBytes::new(identity.0), identity.1);
        let signing = (SecretBytes::new(signing.0), signing.1);
        if !is_kem_pair::<P>(identity.0.as_vec(), &identity.1) || !is_signature_pair::<P>(
            signing.0.as_vec(),
            &signing.1,
        ) {
            return Err(CryptoError::InvalidInput);
        }
        self.install(Some(identity), signing, prekey, now)
    }

    /// Generates the identity and signing keys and the first signed
    /// prekey. On success the manager is initialized with some key pairs
    /// of the suite at some time; on failure it is unchanged.
    pub fn initialize(&mut self) -> (r: Result<(), CryptoError>)
        ensures
            r is Ok ==> final(self)@.is_initialized() && exists|
                identity: (Seq<u8>, Seq<u8>),
                signing: (Seq<u8>, Seq<u8>),
                prekey: (Seq<u8>, Seq<u8>),
                now: i64,
            |
                now >= 0 && P::spec_kem_public(identity.0) == Ok::<Seq<u8>, CryptoError>(identity.1)
                    && P::spec_signature_public(signing.0) == Ok::<Seq<u8>, CryptoError>(signing.1)
                    && P::spec_kem_public(prekey.0) == Ok::<
                    Seq<u8>,
                    CryptoError,
                >(prekey.1) && #[trigger] initialize_step::<P>(old(self)@, identity, signing, prekey, now) == Ok::<
                    KeyManagerState,
                    CryptoError,
                >(final(self)@),
            r is Err ==> final(self)@ == old(self)@,
            r matches Err(e) ==> e == CryptoError::KeyDerivation || exists|
                identity: (Seq<u8>, Seq<u8>),
                signing: (Seq<u8>, Seq<u8>),
                prekey: (Seq<u8>, Seq<u8>),
                now: i64,
            |
                now >= 0 && P::spec_kem_public(identity.0) == Ok::<Seq<u8>, CryptoError>(identity.1)
                    && P::spec_signature_public(signing.0) == Ok::<Seq<u8>, CryptoError>(signing.1)
                    && P::spec_kem_public(prekey.0) == Ok::<Seq<u8>, CryptoError>(prekey.1)
                    && #[trigger] initialize_step::<P>(old(self)@, identity, signing, prekey, now) == Err::<
                    KeyManagerState,
                    CryptoError,
                >(e),
    {
        let identity = P::generate_kem_keys()?;
        let signing = P::generate_signature_keys()?;
        let prekey = P::generate_kem_keys()?;
        let now = current_timestamp();
        let ghost identity_view = (identity.0@, identity.1@);
        let ghost signing_view = (signing.0@, signing.1@);
        let ghost prekey_view = (prekey.0@, prekey.1@);
        let r = self.initialize_with_keys(identity, signing, prekey, now);
        proof {
            if r is Ok {
                assert(initialize_step::<P>(old(self)@, identity_view, signing_view, prekey_view, now) == Ok::<
                    KeyManagerState,
                    CryptoError,
                >(final(self)@));
            } else {
                assert(initialize_step::<P>(old(self)@, identity_view, signing_view, prekey_view, now) == Err::<
                    KeyManagerState,
                    CryptoError,
                >(r->Err_0));
            }
        }
        r
    }

    /// Signs a prekey pair and puts it in place as the current prekey,
    /// together with new identity and signing keys where they are given.
    fn install(
        &mut self,
        identity: Option<(SecretBytes, Vec<u8>)>,
        signing: (SecretBytes, Vec<u8>),
        prekey: (Vec<u8>, Vec<u8>),
        now: i64,
    ) -> (r: Result<(), CryptoError>)
        requires
            identity is Some || (old(self)@.identity_key is Some && old(self)@.signing_key == Some(
                (signing.0@, signing.1@),
            )),
            identity is Some ==> is_kem_pair_of::<P>(identity->Some_0.0@, identity->Some_0.1@),
            P::spec_signature_public(signing.0@) == Ok::<Seq<u8>, CryptoError>(signing.1@),
        ensures
            match rotate_step::<P>(
                KeyManagerState {
                    identity_key: if identity is Some {
                        key_pair_view(identity)
                    } else {
                        old(self)@.identity_key
                    },
                    signing_key: Some((signing.0@, signing.1@)),
                    ..old(self)@
                },
                (prekey.0@, prekey.1@),
                now,
            ) {
                Ok(state) => r is Ok && final(self)@ == state,
                Err(e) => r matches Err(f) && f == e && final(self)@ == old(self)@,
            },
    {
        proof {
            use_type_invariant(&*self);
        }
        let prekey_private = SecretBytes::new(prekey.0);
        let prekey_public = prekey.1;
        if !is_kem_pair::<P>(prekey_private.as_vec(), &prekey_public) {
            return Err(CryptoError::InvalidInput);
        }
        let signature = P::sign(signing.0.as_vec(), prekey_public.as_slice())?;
        if self.next_prekey_id == u32::MAX {
            return Err(CryptoError::InvalidInput);
        }
        let key_id = self.next_prekey_id;
        let mut history: HashMap<u32, PrekeyStore> = HashMap::new();
        assert(prekeys_view(history@) =~= Map::empty());
        core::mem::swap(&mut self.old_prekeys, &mut history);
        let ghost before = prekeys_view(history@);
        match &self.current_signed_prekey {
            Some(current) => {
                history.insert(current.key_id, current.clone());
                assert(prekeys_view(history@) =~= before.insert(current.key_id, current@));
            },
            None => {},
        }
        let ghost whole = prekeys_view(history@);
        assert(whole == old(self)@.history_with_current());
        assert(numbered_below(whole, key_id as int));
        assert(pairs_of_suite::<P>(whole));
        retain_recent(&mut history, PREKEY_RETENTION_SECONDS, now);
        let kept = history;
        assert(prekeys_view(kept@).dom() =~= kept@.dom());
        let identity_key = match identity {
            Some(pair) => Some(pair),
            None => match &self.identity_key {
                Some(pair) => Some(clone_key_pair(pair)),
                None => None,
            },
        };
        *self = KeyManager {
            identity_key,
            signing_key: Some(signing),
            current_signed_prekey: Some(
                PrekeyStore { key_pair: (prekey_private.to_vec(), prekey_public), signature, created_at: now, key_id },
            ),
            old_prekeys: kept,
            next_prekey_id: key_id + 1,
            _phantom: PhantomData,
        };
        Ok(())
    }

    /// The public half of the identity key.
    pub fn identity_public_key(&self) -> (r: Result<&Vec<u8>, CryptoError>)
        ensures
            match self@.identity_key {
                Some(pair) => r matches Ok(key) && key@ == pair.1,
                None => r matches Err(e) && e == CryptoError::Uninitialized,
            },
            self@.well_formed::<P>(),
    {
        proof {
            use_type_invariant(self);
        }
        match &self.identity_key {
            Some(pair) => Ok(&pair.1),
            None => Err(CryptoError::Uninitialized),
        }
    }

    /// The private half of the identity key.
    pub fn identity_secret_key(&self) -> (r: Result<&Vec<u8>, CryptoError>)
        ensures
            match self@.identity_key {
                Some(pair) => r matches Ok(key) && key@ == pair.0,
                None => r matches Err(e) && e == CryptoError::Uninitialized,
            },
            self@.well_formed::<P>(),
    {
        proof {
            use_type_invariant(self);
        }
        match &self.identity_key {
            Some(pair) => Ok(pair.0.as_vec()),
            None => Err(CryptoError::Uninitialized),
        }
    }

    /// The verifying key.
    pub fn verifying_key(&self) -> (r: Result<&Vec<u8>, CryptoError>)
        ensures
            match self@.signing_key {
                Some(pair) => r matches Ok(key) && key@ == pair.1,
                None => r matches Err(e) && e == CryptoError::Uninitialized,
            },
            self@.well_formed::<P>(),
    {
        proof {
            use_type_invariant(self);
        }
        match &self.signing_key {
            Some(pair) => Ok(&pair.1),
            None => Err(CryptoError::Uninitialized),
        }
    }

    /// The signing key.
    pub fn signing_secret_key(&self) -> (r: Result<&Vec<u8>, CryptoError>)
        ensures
            match self@.signing_key {
                Some(pair) => r matches Ok(key) && key@ == pair.0,
                None => r matches Err(e) && e == CryptoError::Uninitialized,
            },
            self@.well_formed::<P>(),
    {
        proof {
            use_type_invariant(self);
        }
        match &self.signing_key {
            Some(pair) => Ok(pair.0.as_vec()),
            None => Err(CryptoError::Uninitialized),
        }
    }

    /// The current signed prekey.
    pub fn current_signed_prekey(&self) -> (r: Result<&PrekeyStore, CryptoError>)
        ensures
            match self@.current_signed_prekey {
                Some(current) => r matches Ok(prekey) && prekey@ == current,
                None => r matches Err(e) && e == CryptoError::Uninitialized,
            },
            self@.well_formed::<P>(),
    {
        proof {
            use_type_invariant(self);
        }
        match &self.current_signed_prekey {
            Some(prekey) => Ok(prekey),
            None => Err(CryptoError::Uninitialized),
        }
    }

    /// Rotates the signed prekey to a given key pair (private half first)
    /// at a given time. On failure the manager is unchanged.
    pub fn rotate_signed_prekey_with_keys(&mut self, key_pair: (Vec<u8>, Vec<u8>), now: i64) -> (r: Result<
        (),
        CryptoError,
    >)
        ensures
            match rotate_step::<P>(old(self)@, (key_pair.0@, key_pair.1@), now) {
                Ok(state) => r is Ok && final(self)@ == state,
                Err(e) => r matches Err(f) && f == e && final(self)@ == old(self)@,
            },
    {
        proof {
            use_type_invariant(&*self);
        }
        let signing = match &self.signing_key {
            Some(pair) => clone_key_pair(pair),
            None => {
                return Err(CryptoError::Uninitialized);
            },
        };
        self.install(None, signing, key_pair, now)
    }

    /// Rotates the signed prekey to a fresh key pair. On success the
    /// manager is in the state that rotation to some key pair of the suite
    /// at some time gives; on failure it is unchanged. Before
    /// initialization it fails with `Uninitialized`; after it, it fails
    /// where no randomness could be had (`KeyDerivation`) or as rotation
    /// to some key pair of the suite fails.
    pub fn rotate_signed_prekey(&mut self) -> (r: Result<(), CryptoError>)
        ensures
            r is Ok ==> exists|key_pair: (Seq<u8>, Seq<u8>), now: i64|
                now >= 0 && P::spec_kem_public(key_pair.0) == Ok::<Seq<u8>, CryptoError>(key_pair.1)
                    && #[trigger] rotate_step::<P>(old(self)@, key_pair, now) == Ok::<KeyManagerState, CryptoError>(
                    final(self)@,
                ),
            r is Err ==> final(self)@ == old(self)@,
            !old(self)@.is_initialized() ==> (r matches Err(e) && e == CryptoError::Uninitialized),
            old(self)@.is_initialized() ==> (r matches Err(e) ==> e == CryptoError::KeyDerivation || exists|
                key_pair: (Seq<u8>, Seq<u8>),
                now: i64,
            |
                now >= 0 && P::spec_kem_public(key_pair.0) == Ok::<Seq<u8>, CryptoError>(key_pair.1)
                    && #[trigger] rotate_step::<P>(old(self)@, key_pair, now) == Err::<KeyManagerState, CryptoError>(
                    e,
                )),
    {
        if self.signing_key.is_none() {
            return Err(CryptoError::Uninitialized);
        }
        let key_pair = P::generate_kem_keys()?;
        let now = current_timestamp();
        let ghost pair_view = (key_pair.0@, key_pair.1@);
        let r = self.rotate_signed_prekey_with_keys(key_pair, now);
        proof {
            if r is Ok {
                assert(rotate_step::<P>(old(self)@, pair_view, now) == Ok::<KeyManagerState, CryptoError>(
                    final(self)@,
                ));
            } else {
                assert(rotate_step::<P>(old(self)@, pair_view, now) == Err::<KeyManagerState, CryptoError>(
                    r->Err_0,
                ));
            }
        }
        r
    }

    /// The prekey with a number: the current one where it has the number,
    /// else the one of the history that has it.
    pub fn get_prekey(&self, key_id: u32) -> (r: Option<&PrekeyStore>)
        ensures
            match self@.prekey(key_id) {
                Some(prekey) => r matches Some(found) && found@ == prekey,
                None => r is None,
            },
    {
        proof {
            use_type_invariant(self);
        }
        if let Some(current) = &self.current_signed_prekey {
            if current.key_id == key_id {
                return Some(current);
            }
        }
        self.old_prekeys.get(&key_id)
    }

    /// Drops the replaced prekeys that are not younger than
    /// `max_age_seconds` at the time `now`.
    pub fn cleanup_old_prekeys_at(&mut self, max_age_seconds: i64, now: i64)
        ensures
            final(self)@ == (KeyManagerState {
                old_prekeys: recent_prekeys(old(self)@.old_prekeys, max_age_seconds, now),
                ..old(self)@
            }),
    {
        proof {
            use_type_invariant(&*self);
        }
        let mut history: HashMap<u32, PrekeyStore> = HashMap::new();
        assert(prekeys_view(history@) =~= Map::empty());
        core::mem::swap(&mut self.old_prekeys, &mut history);
        retain_recent(&mut history, max_age_seconds, now);
        assert(prekeys_view(history@).dom() =~= history@.dom());
        self.old_prekeys = history;
    }

    /// Drops the replaced prekeys that are not younger than
    /// `max_age_seconds` now. What is left was in the history before.
    pub fn cleanup_old_prekeys(&mut self, max_age_seconds: i64)
        ensures
            exists|now: i64|
                now >= 0 && final(self)@ == (KeyManagerState {
                    old_prekeys: #[trigger] recent_prekeys(old(self)@.old_prekeys, max_age_seconds, now),
                    ..old(self)@
                }),
    {
        let now = current_timestamp();
        self.cleanup_old_prekeys_at(max_age_seconds, now);
        assert(final(self)@ == (KeyManagerState {
            old_prekeys: recent_prekeys(old(self)@.old_prekeys, max_age_seconds, now),
            ..old(self)@
        }));
    }

    /// The bundle to register with: the current prekey's view of the keys.
    /// It is the bundle of the manager's three private keys, and its
    /// signature verifies under its verifying key. It fails before
    /// initialization, with `Uninitialized`, and not otherwise.
    pub fn export_registration_bundle(&self) -> (r: Result<RegistrationBundle, CryptoError>)
        ensures
            match self@.bundle::<P>() {
                Ok(bundle) => r matches Ok(b) && b@ == bundle,
                Err(e) => r matches Err(f) && f == e,
            },
            self@.well_formed::<P>(),
            r matches Ok(b) ==> P::spec_verify(b@.verifying_key, b@.signed_prekey_public, b@.signature) == Ok::<
                (),
                CryptoError,
            >(()),
            r matches Ok(b) ==> bundle_of_keys::<P>(
                b@,
                self@.identity_key->Some_0.0,
                self@.current_signed_prekey->Some_0.private_key,
                self@.signing_key->Some_0.0,
            ),
    {
        proof {
            use_type_invariant(self);
        }
        let identity_public = self.identity_public_key()?.clone();
        let verifying_key = self.verifying_key()?.clone();
        let prekey = self.current_signed_prekey()?;
        Ok(
            RegistrationBundle {
                identity_public,
                signed_prekey_public: prekey.key_pair.1.clone(),
                signature: prekey.signature.clone(),
                verifying_key,
                suite_id: P::suite_id(),
            },
        )
    }

    /// The bundle a peer needs to begin a session. It is the bundle of the
    /// manager's three private keys, and its signature verifies under its
    /// verifying key. It fails before initialization, with
    /// `Uninitialized`, and not otherwise.
    pub fn export_public_bundle(&self) -> (r: Result<PublicKeyBundle, CryptoError>)
        ensures
            match self@.bundle::<P>() {
                Ok(bundle) => r matches Ok(b) && b@ == bundle,
                Err(e) => r matches Err(f) && f == e,
            },
            self@.well_formed::<P>(),
            r matches Ok(b) ==> P::spec_verify(b@.verifying_key, b@.signed_prekey_public, b@.signature) == Ok::<
                (),
                CryptoError,
            >(()),
            r matches Ok(b) ==> bundle_of_keys::<P>(
                b@,
                self@.identity_key->Some_0.0,
                self@.current_signed_prekey->Some_0.private_key,
                self@.signing_key->Some_0.0,
            ),
    {
        proof {
            use_type_invariant(self);
        }
        let identity_public = self.identity_public_key()?.clone();
        let verifying_key = self.verifying_key()?.clone();
        let prekey = self.current_signed_prekey()?;
        Ok(
            PublicKeyBundle {
                identity_public,
                signed_prekey_public: prekey.key_pair.1.clone(),
                signature: prekey.signature.clone(),
                verifying_key,
                suite_id: P::suite_id(),
            },
        )
    }

    /// Signs data under the signing key. The signature verifies for the
    /// data under the verifying key. Before initialization it fails with
    /// `Uninitialized`.
    pub fn sign(&self, data: &[u8]) -> (r: Result<Vec<u8>, CryptoError>)
        ensures
            bytes_result_view(r) == match self@.signing_key {
                Some(pair) => P::spec_sign(pair.0, data@),
                None => Err(CryptoError::Uninitialized),
            },
            self@.well_formed::<P>(),
            r matches Ok(signature) ==> self@.signing_key is Some && P::spec_verify(
                self@.signing_key->Some_0.1,
                data@,
                signature@,
            ) == Ok::<(), CryptoError>(()),
    {
        proof {
            use_type_invariant(self);
        }
        match &self.signing_key {
            Some(pair) => P::sign(pair.0.as_vec(), data),
            None => Err(CryptoError::Uninitialized),
        }
    }

    /// How many replaced prekeys are kept.
    pub fn old_prekeys_count(&self) -> (count: usize)
        ensures
            count == self@.old_prekeys.len(),
    {
        assert(prekeys_view(self.old_prekeys@).dom() =~= self.old_prekeys@.dom());
        self.old_prekeys.len()
    }
}

impl<P: CryptoProvider> Default for KeyManager<P> {
    fn default() -> (manager: Self)
        ensures
            manager@ == KeyManagerState::uninitialized(),
    {
        Self::new()
    }
}

} // verus!
