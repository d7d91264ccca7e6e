//! The messages a client holds.

use vstd::prelude::*;
use crate::storage::models::StoredMessage;

verus! {

/// The messages of a client, in the order in which they were added.
pub struct ConversationsState {
    messages: Vec<StoredMessage>,
}

impl ConversationsState {
    /// The messages held.
    pub closed spec fn messages(&self) -> Seq<StoredMessage> {
        self.messages@
    }

    /// No messages.
    pub fn new() -> (state: Self)
        ensures
            state.messages() == Seq::<StoredMessage>::empty(),
    {
        ConversationsState { messages: Vec::new() }
    }
}

impl Default for ConversationsState {
    fn default() -> (state: Self)
        ensures
            state.messages() == Seq::<StoredMessage>::empty(),
    {
        Self::new()
    }
}

} // verus!
