use audiocast::app::state::ConnectionState;

#[test]
fn connection_state_names() {
    assert_eq!(ConnectionState::Idle.as_str(), "idle");
    assert_eq!(ConnectionState::Waiting.as_str(), "waiting");
    assert_eq!(ConnectionState::Connected.as_str(), "connected");
    assert_eq!(ConnectionState::Streaming.as_str(), "streaming");
    assert_eq!(ConnectionState::Disconnected.as_str(), "disconnected");
}
