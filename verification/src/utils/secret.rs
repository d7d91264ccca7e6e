//! Secret bytes that are wiped when they are no longer held.

use vstd::prelude::*;

verus! {

/// `zeroize::Zeroize::zeroize` on a vector: every byte of it is
/// overwritten with zero, and the vector is left empty.
#[verifier::external_body]
pub(crate) fn wipe(bytes: &mut Vec<u8>)
    ensures
        final(bytes)@.len() == 0,
    opens_invariants none
    no_unwind
{
    zeroize::Zeroize::zeroize(bytes);
}

/// Bytes that are secret: a key, or what a key is made from. They are
/// overwritten with zeros when the value is dropped or replaced.
pub struct SecretBytes {
    bytes: Vec<u8>,
}

impl View for SecretBytes {
    type V = Seq<u8>;

    closed spec fn view(&self) -> Seq<u8> {
        self.bytes@
    }
}

impl SecretBytes {
    /// Takes bytes into keeping.
    pub fn new(bytes: Vec<u8>) -> (secret: Self)
        ensures
            secret@ == bytes@,
    {
        SecretBytes { bytes }
    }

    /// The bytes, to be read.
    pub fn as_vec(&self) -> (bytes: &Vec<u8>)
        ensures
            bytes@ == self@,
    {
        &self.bytes
    }

    /// Overwrites the bytes with zeros now and leaves the secret empty.
    pub fn clear(&mut self)
        ensures
            final(self)@.len() == 0,
    {
        wipe(&mut self.bytes);
    }

    /// A copy of the bytes, which the caller answers for.
    pub fn to_vec(&self) -> (bytes: Vec<u8>)
        ensures
            bytes@ == self@,
    {
        self.bytes.clone()
    }
}

impl Clone for SecretBytes {
    fn clone(&self) -> (copy: Self)
        ensures
            copy@ == self@,
    {
        SecretBytes { bytes: self.bytes.clone() }
    }
}

impl Drop for SecretBytes {
    fn drop(&mut self)
        opens_invariants none
        no_unwind
    {
        wipe(&mut self.bytes);
    }
}

/// The bytes an optional secret holds.
pub open spec fn optional_secret_view(secret: Option<SecretBytes>) -> Option<Seq<u8>> {
    match secret {
        Some(s) => Some(s@),
        None => None,
    }
}

/// A copy of the bytes of an optional secret, which the caller answers
/// for.
pub fn optional_secret_to_vec(secret: &Option<SecretBytes>) -> (bytes: Option<Vec<u8>>)
    ensures
        crate::utils::bytes::optional_bytes_view(bytes) == optional_secret_view(*secret),
{
    match secret {
        Some(s) => Some(s.to_vec()),
        None => None,
    }
}

} // verus!
