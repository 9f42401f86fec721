use backend::websocket::{
    handle_websocket, open_session, SessionStep, SocketEvent, WebSocketParams,
};

#[test]
fn session_defaults_to_the_developer_in_general() {
    let session = open_session(WebSocketParams { room_id: None, user_id: None, username: None });
    assert_eq!(session.room_id, "general");
    assert_eq!(session.user_id, "dev-user");
    assert_eq!(session.username, "Developer");
}

#[test]
fn session_takes_what_the_client_gives() {
    let session = open_session(WebSocketParams {
        room_id: Some("rust".to_string()),
        user_id: None,
        username: Some("bob".to_string()),
    });
    assert_eq!(session.room_id, "rust");
    assert_eq!(session.user_id, "dev-user");
    assert_eq!(session.username, "bob");
}

#[test]
fn session_goes_on_until_the_socket_is_done() {
    assert_eq!(handle_websocket(SocketEvent::Text), SessionStep::Continue);
    assert_eq!(handle_websocket(SocketEvent::Other), SessionStep::Continue);
    assert_eq!(handle_websocket(SocketEvent::Close), SessionStep::Stop);
    assert_eq!(handle_websocket(SocketEvent::Error), SessionStep::Stop);
    assert_eq!(handle_websocket(SocketEvent::Ended), SessionStep::Stop);
}
