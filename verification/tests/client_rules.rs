use streamshare::protocol::tcp::TcpPacket;
use streamshare::ui::event::AppEvent;
use streamshare::ui::state::AppState;
use streamshare::client::endpoint::pinned_certificate_matches;
use streamshare::network::fingerprint::certificate_fingerprint;
use streamshare::client::command::{ClientCommand, ClientEvent};
use streamshare::client::config::{ClientConfig, ClientConfigError};
use streamshare::client::session::{command_packet, login_request, login_result, server_event, LoginError};
use streamshare::client::state::{ClientCommand as PendingCommand, ClientState};
use streamshare::media::state::Media;
use streamshare::network::fingerprint::FingerprintError;
use streamshare::protocol::command::{ClientPacket, ServerPacket, StreamInfo, UserInfo};
use streamshare::ui::model::{entry_line, AppModel};

fn config() -> ClientConfig {
    ClientConfig {
        username: "ann".to_string(),
        server_name: "localhost".to_string(),
        server_address: "127.0.0.1:5001".to_string(),
        server_password: "password".to_string(),
        fingerprint: "AB".repeat(32),
    }
}

#[test]
fn a_complete_client_config_is_valid() {
    assert_eq!(config().validate(), Ok(()));
}

#[test]
fn client_config_errors_in_order() {
    let mut c = config();
    c.fingerprint = "AB".repeat(31);
    assert_eq!(
        c.validate(),
        Err(ClientConfigError::InvalidFingerprint(FingerprintError::WrongLength { found: 62 }))
    );
    c.fingerprint = "  ".to_string();
    assert_eq!(c.validate(), Err(ClientConfigError::MissingFingerprint));
    c.server_password = String::new();
    assert_eq!(c.validate(), Err(ClientConfigError::MissingServerPassword));
    c.server_address = "\n".to_string();
    assert_eq!(c.validate(), Err(ClientConfigError::MissingServerAddress));
    c.server_name = String::new();
    assert_eq!(c.validate(), Err(ClientConfigError::MissingServerName));
    c.username = "your_username".to_string();
    assert_eq!(c.validate(), Err(ClientConfigError::UsernameNotConfigured));
    c.username = " ".to_string();
    assert_eq!(c.validate(), Err(ClientConfigError::UsernameNotConfigured));
}

#[test]
fn login_exchange() {
    let request = login_request(&config());
    assert!(matches!(request, ClientPacket::Authenticate { ref username, ref password } if username == "ann" && password == "password"));
    assert_eq!(login_result(&ServerPacket::AuthAccepted { uid: 42 }), Ok(42));
    assert_eq!(login_result(&ServerPacket::AuthDenied), Err(LoginError::Denied));
    assert_eq!(
        login_result(&ServerPacket::Error { error: "x".to_string() }),
        Err(LoginError::Unexpected)
    );
}

#[test]
fn commands_become_packets_and_switch_broadcasting() {
    let mut media = Media::new();
    assert!(!media.is_streaming());
    assert!(matches!(command_packet(&mut media, ClientCommand::StartStream), ClientPacket::StreamStarted));
    assert!(media.is_streaming());
    assert!(matches!(command_packet(&mut media, ClientCommand::WatchStream { uid: 5 }), ClientPacket::WatchStream { uid: 5 }));
    assert!(media.is_streaming());
    assert!(matches!(command_packet(&mut media, ClientCommand::LeaveStream { uid: 5 }), ClientPacket::LeaveStream { uid: 5 }));
    assert!(matches!(command_packet(&mut media, ClientCommand::StopStream), ClientPacket::StreamStopped));
    assert!(!media.is_streaming());
    assert!(matches!(command_packet(&mut media, ClientCommand::Disconnect), ClientPacket::Disconnect));
}

#[test]
fn server_packets_become_events() {
    assert!(matches!(
        server_event(ServerPacket::UserJoined { uid: 3, username: "cy".to_string() }),
        Some(ClientEvent::UserJoined { uid: 3, ref username }) if username == "cy"
    ));
    assert!(matches!(
        server_event(ServerPacket::Error { error: "boom".to_string() }),
        Some(ClientEvent::Error(ref e)) if e == "boom"
    ));
    assert!(server_event(ServerPacket::AuthAccepted { uid: 1 }).is_none());
    assert!(server_event(ServerPacket::AuthDenied).is_none());
}

#[test]
fn pending_command_is_taken_once() {
    let mut state = ClientState::new();
    assert_eq!(state.take_command(), PendingCommand::Nothing);
    state.set_command(PendingCommand::StartStream);
    state.set_command(PendingCommand::Disconnect);
    assert_eq!(state.take_command(), PendingCommand::Disconnect);
    assert_eq!(state.take_command(), PendingCommand::Nothing);
    assert_eq!(state.uid, 0);
    assert!(!state.streaming);
}

#[test]
fn window_follows_users_and_streams() {
    let mut model = AppModel::new();
    model.ui_dirty = false;
    model.handle_client_event(ClientEvent::InitialState {
        users: vec![
            UserInfo { uid: 1, username: "ann".to_string() },
            UserInfo { uid: 2, username: "bob".to_string() },
            UserInfo { uid: 1, username: "anne".to_string() },
        ],
        streams: vec![StreamInfo { uid: 2, username: "bob".to_string() }],
    });
    assert!(model.ui_dirty);
    assert_eq!(model.users.get(&1).map(|s| s.as_str()), Some("anne"));
    assert_eq!(model.users.len(), 2);
    assert_eq!(model.streams.len(), 1);
    let command = model.request_watch_stream(2);
    assert_eq!(command, ClientCommand::WatchStream { uid: 2 });
    assert_eq!(model.selected_stream, Some(2));
    model.handle_client_event(ClientEvent::StreamStopped { uid: 2, username: "bob".to_string() });
    assert_eq!(model.selected_stream, None);
    assert!(model.streams.is_empty());
    model.handle_client_event(ClientEvent::StreamStarted { uid: 1, username: "anne".to_string() });
    model.request_watch_stream(1);
    model.handle_client_event(ClientEvent::UserLeft { uid: 1, username: "anne".to_string() });
    assert_eq!(model.selected_stream, None);
    assert!(!model.users.contains_key(&1));
    assert!(!model.streams.contains_key(&1));
    model.handle_client_event(ClientEvent::UserJoined { uid: 5, username: "eve".to_string() });
    assert!(model.users.contains_key(&5));
    model.ui_dirty = false;
    model.handle_client_event(ClientEvent::Disconnected);
    assert!(model.ui_dirty);
    assert_eq!(model.users.len(), 2);
}

#[test]
fn control_task_sends_one_byte_per_command() {
    let mut state = ClientState::new();
    assert_eq!(state.send_step(), (None, true));
    state.set_command(PendingCommand::StartStream);
    assert_eq!(state.send_step(), (Some(0x01), true));
    assert!(state.streaming);
    assert_eq!(state.send_step(), (None, true));
    state.set_command(PendingCommand::StopStream);
    assert_eq!(state.send_step(), (Some(0x02), true));
    assert!(!state.streaming);
    state.set_command(PendingCommand::Disconnect);
    assert_eq!(state.send_step(), (Some(0x03), false));
    assert_eq!(state.command, PendingCommand::Nothing);
}

#[test]
fn tcp_notices_update_the_stream_list() {
    let mut state = AppState::new();
    assert_eq!(
        state.apply_tcp_packet(TcpPacket::UserJoined { uid: 4, username: "dan".to_string() }),
        Some(AppEvent::UserJoined(4))
    );
    assert_eq!(
        state.apply_tcp_packet(TcpPacket::StreamStarted { uid: 4, username: "dan".to_string() }),
        Some(AppEvent::StreamStarted(4))
    );
    let info = state.available_streams.get(&4).unwrap();
    assert_eq!(info.resolution, (1980, 1020));
    assert_eq!(info.fps, 60);
    assert_eq!(info.username, "dan");
    assert_eq!(
        state.apply_tcp_packet(TcpPacket::StreamStopped { uid: 4, username: "dan".to_string() }),
        Some(AppEvent::StreamStopped(4))
    );
    assert!(state.available_streams.is_empty());
    assert_eq!(state.apply_tcp_packet(TcpPacket::AuthAccepted), None);
    let notes: Vec<&str> = state.notifications.iter().map(|s| s.as_str()).collect();
    assert_eq!(notes, vec!["dan joined", "dan started streaming", "dan stopped streaming"]);
}

#[test]
fn pinned_certificate_is_compared_by_digest() {
    let pinned = certificate_fingerprint(b"cert").to_vec();
    assert!(pinned_certificate_matches(&pinned, b"cert"));
    assert!(!pinned_certificate_matches(&pinned, b"other"));
    assert!(!pinned_certificate_matches(&pinned[..31].to_vec(), b"cert"));
}

#[test]
fn list_labels() {
    let mut model = AppModel::new();
    let name = "bob".to_string();
    assert_eq!(model.watch_label(2, &name), "Watch bob");
    model.request_watch_stream(2);
    assert_eq!(model.watch_label(2, &name), "Watching bob");
    assert_eq!(model.watch_label(3, &name), "Watch bob");
    assert_eq!(entry_line(42, &name), "42: bob");
}
