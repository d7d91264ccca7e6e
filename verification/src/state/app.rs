//! The state of the whole client: who uses it, its cryptographic core,
//! its connection and what its user interface shows.

use vstd::prelude::*;
use crate::api::crypto::CryptoCore;
use crate::crypto::classic_suite::ClassicSuiteProvider;
use crate::error::ConstructError;
use crate::protocol::messages::ChatMessage;
use crate::state::contacts::ContactsState;
use crate::state::conversations::ConversationsState;
use crate::storage::models::{StoredContact, StoredMessage};

verus! {

/// The state of the connection to the server.
#[derive(Debug, Clone, Copy, PartialEq, Eq, Structural)]
pub enum ConnectionState {
    Disconnected,
    Connecting,
    Connected,
    Reconnecting,
    Error,
}

/// What the user interface shows besides the conversations.
#[derive(Debug, Clone)]
pub struct UiState {
    /// Whether something is being loaded.
    pub is_loading: bool,
    /// The error to show, if any.
    pub error_message: Option<String>,
    /// The notification to show, if any.
    pub notification: Option<String>,
}

impl UiState {
    /// Nothing is loading and nothing is shown.
    pub fn new() -> (state: Self)
        ensures
            !state.is_loading,
            state.error_message is None,
            state.notification is None,
    {
        UiState { is_loading: false, error_message: None, notification: None }
    }

    /// Sets whether something is being loaded.
    pub fn set_loading(&mut self, loading: bool)
        ensures
            *final(self) == (UiState { is_loading: loading, ..*old(self) }),
    {
        self.is_loading = loading;
    }

    /// Shows an error.
    pub fn set_error(&mut self, error: String)
        ensures
            *final(self) == (UiState { error_message: Some(error), ..*old(self) }),
    {
        self.error_message = Some(error);
    }

    /// Shows no error.
    pub fn clear_error(&mut self)
        ensures
            *final(self) == (UiState { error_message: None, ..*old(self) }),
    {
        self.error_message = None;
    }

    /// Shows a notification.
    pub fn set_notification(&mut self, notification: String)
        ensures
            *final(self) == (UiState { notification: Some(notification), ..*old(self) }),
    {
        self.notification = Some(notification);
    }

    /// Shows no notification.
    pub fn clear_notification(&mut self)
        ensures
            *final(self) == (UiState { notification: None, ..*old(self) }),
    {
        self.notification = None;
    }
}

impl Default for UiState {
    fn default() -> (state: Self)
        ensures
            !state.is_loading,
            state.error_message is None,
            state.notification is None,
    {
        Self::new()
    }
}

/// The cryptographic core of the client, over the classic suite.
pub type CryptoManager = CryptoCore<ClassicSuiteProvider>;

/// The state of one client.
pub struct AppState {
    user_id: Option<String>,
    username: Option<String>,
    crypto_manager: CryptoManager,
    contacts: ContactsState,
    conversations: ConversationsState,
    connection_state: ConnectionState,
    active_conversation: Option<String>,
    ui_state: UiState,
}

impl AppState {
    /// The id of the user, once there is one.
    pub closed spec fn user_id(&self) -> Option<String> {
        self.user_id
    }

    /// The name of the user, once there is one.
    pub closed spec fn username(&self) -> Option<String> {
        self.username
    }

    /// The state of the connection.
    pub closed spec fn connection(&self) -> ConnectionState {
        self.connection_state
    }

    /// The contact whose conversation is shown, if any.
    pub closed spec fn active(&self) -> Option<String> {
        self.active_conversation
    }

    /// What the user interface shows.
    pub closed spec fn ui(&self) -> UiState {
        self.ui_state
    }

    /// The cryptographic core.
    pub closed spec fn crypto(&self) -> CryptoManager {
        self.crypto_manager
    }

    /// The contacts held.
    pub closed spec fn contact_list(&self) -> Seq<StoredContact> {
        self.contacts.contacts()
    }

    /// The messages held.
    pub closed spec fn message_list(&self) -> Seq<StoredMessage> {
        self.conversations.messages()
    }

    /// A client without a user, disconnected, that shows nothing, with a
    /// fresh cryptographic core. The name of a database is taken for the
    /// storage collaborator and not used here. It fails with a
    /// `CryptoError` where the core cannot be made.
    pub fn new(_db_name: &str) -> (r: Result<Self, ConstructError>)
        ensures
            r matches Ok(state) ==> {
                &&& state.user_id() is None
                &&& state.username() is None
                &&& state.connection() == ConnectionState::Disconnected
                &&& state.active() is None
                &&& !state.ui().is_loading
                &&& state.ui().error_message is None
                &&& state.ui().notification is None
                &&& state.crypto().well_formed()
                &&& state.contact_list().len() == 0
                &&& state.message_list().len() == 0
            },
            r matches Err(e) ==> e is CryptoError,
    {
        let crypto_manager = match CryptoManager::new() {
            Ok(manager) => manager,
            Err(e) => {
                return Err(ConstructError::CryptoError(e.message()));
            },
        };
        Ok(
            AppState {
                user_id: None,
                username: None,
                crypto_manager,
                contacts: ContactsState::new(),
                conversations: ConversationsState::new(),
                connection_state: ConnectionState::Disconnected,
                active_conversation: None,
                ui_state: UiState::new(),
            },
        )
    }

    /// Takes note of an incoming message. Decrypting and storing it is
    /// the work of the collaborators; the state is as it was.
    pub fn receive_message(&mut self, _chat_msg: ChatMessage, _session_id: &str) -> (r: Result<(), ConstructError>)
        ensures
            r is Ok,
            *final(self) == *old(self),
    {
        Ok(())
    }

    /// Shows the conversation with a contact, or none.
    pub fn set_active_conversation(&mut self, contact_id: Option<String>)
        ensures
            final(self).active() == contact_id,
            final(self).user_id() == old(self).user_id(),
            final(self).username() == old(self).username(),
            final(self).connection() == old(self).connection(),
            final(self).ui() == old(self).ui(),
            final(self).crypto() == old(self).crypto(),
    {
        self.active_conversation = contact_id;
    }

    /// The contact whose conversation is shown, if any.
    pub fn get_active_conversation(&self) -> (contact_id: Option<&str>)
        ensures
            match self.active() {
                Some(id) => contact_id matches Some(text) && text@ == id@,
                None => contact_id is None,
            },
    {
        match &self.active_conversation {
            Some(id) => Some(id.as_str()),
            None => None,
        }
    }

    /// Connecting is the work of the transport collaborator: here it
    /// fails with a `NetworkError` and changes nothing.
    pub fn connect(&mut self, _server_url: &str) -> (r: Result<(), ConstructError>)
        ensures
            r matches Err(e) && e is NetworkError,
            *final(self) == *old(self),
    {
        Err(ConstructError::NetworkError("WebSocket only available in WASM".to_owned()))
    }

    /// Marks the client as disconnected.
    pub fn disconnect(&mut self) -> (r: Result<(), ConstructError>)
        ensures
            r is Ok,
            final(self).connection() == ConnectionState::Disconnected,
            final(self).user_id() == old(self).user_id(),
            final(self).username() == old(self).username(),
            final(self).active() == old(self).active(),
            final(self).ui() == old(self).ui(),
            final(self).crypto() == old(self).crypto(),
    {
        self.connection_state = ConnectionState::Disconnected;
        Ok(())
    }

    /// Sets the state of the connection.
    pub fn set_connection_state(&mut self, state: ConnectionState)
        ensures
            final(self).connection() == state,
            final(self).user_id() == old(self).user_id(),
            final(self).username() == old(self).username(),
            final(self).active() == old(self).active(),
            final(self).ui() == old(self).ui(),
            final(self).crypto() == old(self).crypto(),
    {
        self.connection_state = state;
    }

    /// The state of the connection.
    pub fn connection_state(&self) -> (state: ConnectionState)
        ensures
            state == self.connection(),
    {
        self.connection_state
    }

    /// Whether the client is connected.
    pub fn is_connected(&self) -> (connected: bool)
        ensures
            connected == (self.connection() == ConnectionState::Connected),
    {
        self.connection_state == ConnectionState::Connected
    }

    /// Makes a user the user of the client.
    pub fn set_user(&mut self, user_id: String, username: String)
        ensures
            final(self).user_id() == Some(user_id),
            final(self).username() == Some(username),
            final(self).connection() == old(self).connection(),
            final(self).active() == old(self).active(),
            final(self).ui() == old(self).ui(),
            final(self).crypto() == old(self).crypto(),
    {
        self.user_id = Some(user_id);
        self.username = Some(username);
    }

    /// The id of the user, once there is one.
    pub fn get_user_id(&self) -> (id: Option<&str>)
        ensures
            match self.user_id() {
                Some(user_id) => id matches Some(text) && text@ == user_id@,
                None => id is None,
            },
    {
        match &self.user_id {
            Some(id) => Some(id.as_str()),
            None => None,
        }
    }

    /// The name of the user, once there is one.
    pub fn get_username(&self) -> (name: Option<&str>)
        ensures
            match self.username() {
                Some(username) => name matches Some(text) && text@ == username@,
                None => name is None,
            },
    {
        match &self.username {
            Some(name) => Some(name.as_str()),
            None => None,
        }
    }

    /// What the user interface shows.
    pub fn ui_state(&self) -> (ui: &UiState)
        ensures
            *ui == self.ui(),
    {
        &self.ui_state
    }

    /// What the user interface shows, to be changed.
    pub fn ui_state_mut(&mut self) -> (ui: &mut UiState)
        ensures
            *ui == old(self).ui(),
            final(self).ui() == *final(ui),
            final(self).user_id() == old(self).user_id(),
            final(self).username() == old(self).username(),
            final(self).connection() == old(self).connection(),
            final(self).active() == old(self).active(),
            final(self).crypto() == old(self).crypto(),
    {
        &mut self.ui_state
    }

    /// The cryptographic core.
    pub fn crypto_manager(&self) -> (manager: &CryptoManager)
        ensures
            *manager == self.crypto(),
    {
        &self.crypto_manager
    }

    /// The cryptographic core, to be changed.
    pub fn crypto_manager_mut(&mut self) -> (manager: &mut CryptoManager)
        ensures
            *manager == old(self).crypto(),
            final(self).crypto() == *final(manager),
            final(self).user_id() == old(self).user_id(),
            final(self).username() == old(self).username(),
            final(self).connection() == old(self).connection(),
            final(self).active() == old(self).active(),
            final(self).ui() == old(self).ui(),
    {
        &mut self.crypto_manager
    }

    /// The messages held.
    pub fn conversations_manager(&self) -> (conversations: &ConversationsState)
        ensures
            conversations.messages() == self.message_list(),
    {
        &self.conversations
    }

    /// The messages held, to be changed.
    pub fn conversations_manager_mut(&mut self) -> (conversations: &mut ConversationsState)
        ensures
            conversations.messages() == old(self).message_list(),
            final(self).message_list() == final(conversations).messages(),
            final(self).user_id() == old(self).user_id(),
            final(self).username() == old(self).username(),
            final(self).connection() == old(self).connection(),
            final(self).active() == old(self).active(),
            final(self).ui() == old(self).ui(),
            final(self).crypto() == old(self).crypto(),
    {
        &mut self.conversations
    }

    /// Forgets the user, the contacts, the messages and the conversation
    /// shown, and marks the client as disconnected. The cryptographic
    /// core and the user interface stay.
    pub fn clear_all_data(&mut self) -> (r: Result<(), ConstructError>)
        ensures
            r is Ok,
            final(self).user_id() is None,
            final(self).username() is None,
            final(self).active() is None,
            final(self).connection() == ConnectionState::Disconnected,
            final(self).contact_list().len() == 0,
            final(self).message_list().len() == 0,
            final(self).ui() == old(self).ui(),
            final(self).crypto() == old(self).crypto(),
    {
        self.contacts = ContactsState::new();
        self.conversations = ConversationsState::new();
        self.user_id = None;
        self.username = None;
        self.active_conversation = None;
        self.connection_state = ConnectionState::Disconnected;
        Ok(())
    }
}

} // verus!
