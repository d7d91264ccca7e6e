//! The X3DH handshake: from a peer's signed prekey bundle to a root key seed.

use vstd::prelude::*;
use vstd::string::StringSliceAdditionalSpecFns;
use core::marker::PhantomData;
use crate::crypto::provider::{bytes_result_view, secret_kem_decapsulate, CryptoProvider};
use crate::error::CryptoError;
use crate::SuiteID;

verus! {

/// What a key bundle holds, as plain values.
pub struct BundleView {
    pub identity_public: Seq<u8>,
    pub signed_prekey_public: Seq<u8>,
    pub signature: Seq<u8>,
    pub verifying_key: Seq<u8>,
    pub suite_id: SuiteID,
}

/// The public keys of a peer: enough to begin a session with it.
#[derive(Clone, Debug)]
pub struct PublicKeyBundle {
    pub identity_public: Vec<u8>,
    pub signed_prekey_public: Vec<u8>,
    pub signature: Vec<u8>,
    pub verifying_key: Vec<u8>,
    pub suite_id: SuiteID,
}

/// The public keys a client publishes when it registers.
#[derive(Clone, Debug)]
pub struct RegistrationBundle {
    pub identity_public: Vec<u8>,
    pub signed_prekey_public: Vec<u8>,
    pub signature: Vec<u8>,
    pub verifying_key: Vec<u8>,
    pub suite_id: SuiteID,
}

impl View for PublicKeyBundle {
    type V = BundleView;

    open spec fn view(&self) -> BundleView {
        BundleView {
            identity_public: self.identity_public@,
            signed_prekey_public: self.signed_prekey_public@,
            signature: self.signature@,
            verifying_key: self.verifying_key@,
            suite_id: self.suite_id,
        }
    }
}

impl View for RegistrationBundle {
    type V = BundleView;

    open spec fn view(&self) -> BundleView {
        BundleView {
            identity_public: self.identity_public@,
            signed_prekey_public: self.signed_prekey_public@,
            signature: self.signature@,
            verifying_key: self.verifying_key@,
            suite_id: self.suite_id,
        }
    }
}

/// The HKDF info under which the root key seed is derived.
pub open spec fn x3dh_info() -> Seq<u8> {
    "X3DH Root Key".spec_bytes()
}

/// Length of the root key seed.
pub const ROOT_KEY_SEED_LEN: usize = 32;

/// The outcome of the handshake. A peer of another suite is refused first;
/// then the signature over the signed prekey must verify under the peer's
/// verifying key; then the seed is derived from the secret shared between
/// the own identity key and the peer's.
pub open spec fn x3dh_root_key_seed<P: CryptoProvider>(
    identity_private: Seq<u8>,
    remote_identity_public: Seq<u8>,
    remote_signed_prekey_public: Seq<u8>,
    remote_signature: Seq<u8>,
    remote_verifying_key: Seq<u8>,
    remote_suite_id: SuiteID,
) -> Result<Seq<u8>, CryptoError> {
    if remote_suite_id != P::spec_suite_id() {
        Err(CryptoError::SuiteMismatch)
    } else if P::spec_verify(remote_verifying_key, remote_signed_prekey_public, remote_signature) is Err {
        Err(CryptoError::SignatureVerification)
    } else {
        match P::spec_kem_decapsulate(identity_private, remote_identity_public) {
            Err(e) => Err(e),
            Ok(shared_secret) => P::spec_hkdf_derive_key(
                Seq::empty(),
                shared_secret,
                x3dh_info(),
                ROOT_KEY_SEED_LEN as nat,
            ),
        }
    }
}

/// A bundle of the own suite whose signature the suite does not accept for
/// the signed prekey under the verifying key aborts the handshake with
/// `SignatureVerification`, whatever the identity keys are: a seed comes
/// out only where the signature is accepted.
pub proof fn lemma_handshake_needs_signature<P: CryptoProvider>(
    identity_private: Seq<u8>,
    remote_identity_public: Seq<u8>,
    remote_signed_prekey_public: Seq<u8>,
    remote_signature: Seq<u8>,
    remote_verifying_key: Seq<u8>,
)
    ensures
        ({
            let outcome = x3dh_root_key_seed::<P>(
                identity_private,
                remote_identity_public,
                remote_signed_prekey_public,
                remote_signature,
                remote_verifying_key,
                P::spec_suite_id(),
            );
            let checked = P::spec_verify(remote_verifying_key, remote_signed_prekey_public, remote_signature);
            &&& checked is Err ==> outcome == Err::<Seq<u8>, CryptoError>(CryptoError::SignatureVerification)
            &&& outcome is Ok ==> checked is Ok
        }),
{
}

/// Whether a bundle is what the suite makes of the three private keys: the
/// public halves of the identity key and of the signed prekey, each of the
/// length the suite gives its KEM public keys, the verifying key, and the
/// signature of the signed prekey's public half.
pub open spec fn bundle_of_keys<P: CryptoProvider>(
    bundle: BundleView,
    identity_private: Seq<u8>,
    signed_prekey_private: Seq<u8>,
    signing_key: Seq<u8>,
) -> bool {
    &&& P::spec_kem_public(identity_private) == Ok::<Seq<u8>, CryptoError>(bundle.identity_public)
    &&& P::spec_kem_public(signed_prekey_private) == Ok::<Seq<u8>, CryptoError>(bundle.signed_prekey_public)
    &&& bundle.identity_public.len() == P::spec_kem_public_key_len()
    &&& bundle.signed_prekey_public.len() == P::spec_kem_public_key_len()
    &&& P::spec_signature_public(signing_key) == Ok::<Seq<u8>, CryptoError>(bundle.verifying_key)
    &&& P::spec_sign(signing_key, bundle.signed_prekey_public) == Ok::<Seq<u8>, CryptoError>(bundle.signature)
    &&& bundle.suite_id == P::spec_suite_id()
}

/// The handshake over a suite `P`. It holds no state.
pub struct X3DH<P: CryptoProvider> {
    _phantom: PhantomData<P>,
}

impl<P: CryptoProvider> X3DH<P> {
    /// Runs the handshake against a peer's bundle and returns the 32-byte
    /// root key seed. The own signed prekey takes no part in it.
    pub fn perform_x3dh(
        identity_private: &Vec<u8>,
        _signed_prekey_private: &Vec<u8>,
        remote_identity_public: &Vec<u8>,
        remote_signed_prekey_public: &Vec<u8>,
        remote_signature: &[u8],
        remote_verifying_key: &Vec<u8>,
        remote_suite_id: SuiteID,
    ) -> (r: Result<Vec<u8>, CryptoError>)
        ensures
            bytes_result_view(r) == x3dh_root_key_seed::<P>(
                identity_private@,
                remote_identity_public@,
                remote_signed_prekey_public@,
                remote_signature@,
                remote_verifying_key@,
                remote_suite_id,
            ),
            r matches Ok(seed) ==> seed@.len() == ROOT_KEY_SEED_LEN,
    {
        if remote_suite_id != P::suite_id() {
            return Err(CryptoError::SuiteMismatch);
        }
        if P::verify(remote_verifying_key, remote_signed_prekey_public.as_slice(), remote_signature).is_err() {
            return Err(CryptoError::SignatureVerification);
        }
        let shared_secret = secret_kem_decapsulate::<P>(identity_private, remote_identity_public.as_slice())?;
        let salt: Vec<u8> = Vec::new();
        P::hkdf_derive_key(
            salt.as_slice(),
            shared_secret.as_vec().as_slice(),
            "X3DH Root Key".as_bytes(),
            ROOT_KEY_SEED_LEN,
        )
    }

    /// The bundle that belongs to three key pairs, each given private half
    /// first. Fails as the suite's `sign` fails, and not otherwise.
    pub fn registration_bundle_for(
        identity: &(Vec<u8>, Vec<u8>),
        signed_prekey: &(Vec<u8>, Vec<u8>),
        signing: &(Vec<u8>, Vec<u8>),
    ) -> (r: Result<RegistrationBundle, CryptoError>)
        ensures
            match P::spec_sign(signing.0@, signed_prekey.1@) {
                Ok(signature) => r matches Ok(bundle) && bundle@ == (BundleView {
                    identity_public: identity.1@,
                    signed_prekey_public: signed_prekey.1@,
                    signature,
                    verifying_key: signing.1@,
                    suite_id: P::spec_suite_id(),
                }),
                Err(e) => r matches Err(f) && f == e,
            },
    {
        let signature = match P::sign(&signing.0, signed_prekey.1.as_slice()) {
            Ok(signature) => signature,
            Err(e) => {
                return Err(e);
            },
        };
        Ok(
            RegistrationBundle {
                identity_public: identity.1.clone(),
                signed_prekey_public: signed_prekey.1.clone(),
                signature,
                verifying_key: signing.1.clone(),
                suite_id: P::suite_id(),
            },
        )
    }

    /// A bundle over three fresh key pairs. The private halves are not
    /// kept: whatever comes out is the bundle of some three private keys.
    /// Where it fails, no randomness could be had (`KeyDerivation`) or
    /// signing failed.
    pub fn generate_registration_bundle() -> (r: Result<RegistrationBundle, CryptoError>)
        ensures
            r matches Ok(bundle) ==> exists|identity: Seq<u8>, prekey: Seq<u8>, signing: Seq<u8>|
                #[trigger] bundle_of_keys::<P>(bundle@, identity, prekey, signing),
            r matches Err(e) ==> e == CryptoError::KeyDerivation || exists|signing: Seq<u8>, prekey: Seq<u8>|
                #[trigger] P::spec_sign(signing, prekey) == Err::<Seq<u8>, CryptoError>(e),
    {
        let identity = match P::generate_kem_keys() {
            Ok(pair) => pair,
            Err(e) => {
                return Err(e);
            },
        };
        let signed_prekey = match P::generate_kem_keys() {
            Ok(pair) => pair,
            Err(e) => {
                return Err(e);
            },
        };
        let signing = match P::generate_signature_keys() {
            Ok(pair) => pair,
            Err(e) => {
                return Err(e);
            },
        };
        let r = Self::registration_bundle_for(&identity, &signed_prekey, &signing);
        proof {
            if r is Ok {
                assert(bundle_of_keys::<P>(r->Ok_0@, identity.0@, signed_prekey.0@, signing.0@));
            } else {
                assert(P::spec_sign(signing.0@, signed_prekey.1@) == Err::<Seq<u8>, CryptoError>(r->Err_0));
            }
        }
        r
    }
}

} // verus!
