//! The contacts a client knows.

use vstd::prelude::*;
use crate::storage::models::StoredContact;

verus! {

/// The contacts of a client, in the order in which they were added.
pub struct ContactsState {
    contacts: Vec<StoredContact>,
}

impl ContactsState {
    /// The contacts held.
    pub closed spec fn contacts(&self) -> Seq<StoredContact> {
        self.contacts@
    }

    /// No contacts.
    pub fn new() -> (state: Self)
        ensures
            state.contacts() == Seq::<StoredContact>::empty(),
    {
        ContactsState { contacts: Vec::new() }
    }
}

impl Default for ContactsState {
    fn default() -> (state: Self)
        ensures
            state.contacts() == Seq::<StoredContact>::empty(),
    {
        Self::new()
    }
}

} // verus!
