use construct_core::error::ConstructError;
use construct_core::protocol::messages::ChatMessage;
use construct_core::state::app::{AppState, ConnectionState};

#[test]
fn test_app_state_creation() {
    let state = AppState::new("test_db");
    assert!(state.is_ok());

    let state = state.unwrap();
    assert!(state.get_user_id().is_none());
    assert_eq!(state.connection_state(), ConnectionState::Disconnected);
}

#[test]
fn app_state_tracks_user_connection_and_conversation() {
    let mut state = AppState::new("test_db").unwrap();
    assert!(state.get_username().is_none());
    assert!(state.get_active_conversation().is_none());
    assert!(!state.is_connected());
    assert!(state.crypto_manager().key_manager().is_initialized());

    state.set_user("id-1".to_string(), "alice".to_string());
    assert_eq!(state.get_user_id(), Some("id-1"));
    assert_eq!(state.get_username(), Some("alice"));

    state.set_active_conversation(Some("bob".to_string()));
    assert_eq!(state.get_active_conversation(), Some("bob"));

    state.set_connection_state(ConnectionState::Connected);
    assert!(state.is_connected());
    assert_eq!(state.connection_state(), ConnectionState::Connected);
    match state.connect("wss://example.invalid") {
        Err(ConstructError::NetworkError(text)) => assert_eq!(text, "WebSocket only available in WASM"),
        _ => panic!("expected a network error"),
    }
    assert!(state.is_connected());
    state.disconnect().unwrap();
    assert_eq!(state.connection_state(), ConnectionState::Disconnected);

    state.ui_state_mut().set_error("broken".to_string());
    assert_eq!(state.ui_state().error_message.as_deref(), Some("broken"));
    state.crypto_manager_mut().rotate_prekey().unwrap();
    assert_eq!(state.crypto_manager().key_manager().old_prekeys_count(), 1);

    let message = ChatMessage {
        id: String::new(),
        from: String::new(),
        to: String::new(),
        ephemeral_public_key: Vec::new(),
        message_number: 0,
        content: String::new(),
        timestamp: 0,
    };
    assert!(state.receive_message(message, "session").is_ok());
    let _ = state.conversations_manager();
    let _ = state.conversations_manager_mut();

    state.set_connection_state(ConnectionState::Error);
    state.clear_all_data().unwrap();
    assert!(state.get_user_id().is_none());
    assert!(state.get_username().is_none());
    assert!(state.get_active_conversation().is_none());
    assert_eq!(state.connection_state(), ConnectionState::Disconnected);
    assert_eq!(state.ui_state().error_message.as_deref(), Some("broken"));
}
