use v1bectl::client::{ConnectionState, ServerCmd};

#[test]
fn test_connection_state_display() {
    assert_eq!(ConnectionState::Connecting.to_display_string(), "Connecting...");
    assert_eq!(ConnectionState::Connected.to_display_string(), "Connected");
    assert_eq!(
        ConnectionState::Reconnecting(5).to_display_string(),
        "Reconnecting... (attempt 5)"
    );
}

#[test]
fn test_server_cmd_variants() {
    let cmd = ServerCmd::SetLightState {
        device_id: "light-1".to_string(),
        is_on: Some(true),
        brightness: Some(50),
        color_temp: None,
    };

    let _ = cmd.clone();
}

#[test]
fn disconnected_state_display() {
    assert_eq!(ConnectionState::Disconnected.to_display_string(), "Disconnected");
}
