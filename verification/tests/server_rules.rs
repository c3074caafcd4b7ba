use streamshare::protocol::command::{ClientPacket, ServerPacket};
use streamshare::protocol::tcp::TcpPacket;
use streamshare::server::auth::{answer_response, create_response, generate_challenge, SERVER_KEY};
use streamshare::server::config::{ServerConfig, ServerConfigError};
use streamshare::server::login::{answer_login, LoginAnswer};
use streamshare::server::state::{generate_session_id, PeerAddress, ServerState};

fn addr(last: u8, port: u16) -> PeerAddress {
    PeerAddress { ip: 0x7f00_0000 | last as u128, port, is_v6: false }
}

fn recipients(out: &[(u64, TcpPacket)]) -> Vec<u64> {
    let mut ids: Vec<u64> = out.iter().map(|(to, _)| *to).collect();
    ids.sort();
    ids
}

#[test]
fn registering_tells_the_newcomer_its_id_and_the_others_who_joined() {
    let mut state = ServerState::new();
    let first = state.register(7, "ann".to_string());
    assert_eq!(first.len(), 1);
    assert!(matches!(first[0], (7, TcpPacket::SendUID { uid: 7 })));
    let second = state.register(9, "bob".to_string());
    assert_eq!(recipients(&second), vec![7, 9]);
    for (to, packet) in &second {
        if *to == 9 {
            assert!(matches!(packet, TcpPacket::SendUID { uid: 9 }));
        } else {
            assert!(matches!(packet, TcpPacket::UserJoined { uid: 9, username } if username == "bob"));
        }
    }
    assert_eq!(state.users.len(), 2);
}

#[test]
fn starting_twice_announces_once() {
    let mut state = ServerState::new();
    state.register(1, "ann".to_string());
    state.register(2, "bob".to_string());
    let name = "ann".to_string();
    let started = state.start_stream(1, &name);
    assert_eq!(recipients(&started), vec![1, 2]);
    assert!(started
        .iter()
        .all(|(_, p)| matches!(p, TcpPacket::StreamStarted { uid: 1, username } if username == "ann")));
    assert!(state.start_stream(1, &name).is_empty());
    assert_eq!(state.streams.len(), 1);
    let stopped = state.stop_stream(1, &name);
    assert_eq!(recipients(&stopped), vec![1, 2]);
    assert!(state.stop_stream(1, &name).is_empty());
    assert!(state.streams.is_empty());
}

#[test]
fn command_bytes_start_stop_and_disconnect() {
    let mut state = ServerState::new();
    state.register(1, "ann".to_string());
    state.register(2, "bob".to_string());
    let name = "ann".to_string();
    let (out, go_on) = state.handle_command(1, &name, 0x01);
    assert!(go_on);
    assert_eq!(out.len(), 2);
    let (out, go_on) = state.handle_command(1, &name, 0x7f);
    assert!(go_on);
    assert!(out.is_empty());
    let (out, go_on) = state.handle_command(1, &name, 0x03);
    assert!(!go_on);
    assert_eq!(recipients(&out), vec![2]);
    assert!(matches!(&out[0].1, TcpPacket::UserLeft { uid: 1, username } if username == "ann"));
    assert!(state.streams.is_empty());
    assert_eq!(state.users.len(), 1);
}

#[test]
fn a_dropped_connection_leaves_its_stream_behind() {
    let mut state = ServerState::new();
    state.register(1, "ann".to_string());
    state.register(2, "bob".to_string());
    let name = "ann".to_string();
    state.start_stream(1, &name);
    let out = state.leave(1, &name);
    assert_eq!(recipients(&out), vec![2]);
    assert!(state.streams.contains_key(&1));
    assert!(!state.users.contains_key(&1));
}

#[test]
fn video_goes_to_everyone_else_with_an_address() {
    let mut state = ServerState::new();
    state.register(1, "ann".to_string());
    state.register(2, "bob".to_string());
    state.register(3, "cy".to_string());
    state.register(4, "di".to_string());
    state.register_udp(1, addr(1, 4001));
    state.register_udp(2, addr(2, 4002));
    state.register_udp(3, addr(3, 4003));
    state.register_udp(99, addr(9, 4009));
    assert!(state.video_recipients(1).is_none());
    state.start_stream(1, &"ann".to_string());
    let mut routes = state.video_recipients(1).unwrap();
    routes.sort_by_key(|(uid, _)| *uid);
    assert_eq!(routes, vec![(2, addr(2, 4002)), (3, addr(3, 4003))]);
    assert_eq!(state.client_by_addr(addr(3, 4003)), Some(3));
    assert_eq!(state.client_by_addr(addr(9, 4009)), None);
}

#[test]
fn session_ids_are_fresh() {
    let mut state = ServerState::new();
    for i in 0..20u64 {
        let id = generate_session_id(&state);
        assert!(!state.users.contains_key(&id));
        state.register(id, format!("user{i}"));
    }
    assert_eq!(state.users.len(), 20);
}

#[test]
fn response_is_the_digest_of_key_then_challenge() {
    // SHA-256 of "abc", split between key and challenge.
    let response = create_response("ab", b"c");
    assert_eq!(response.len(), 32);
    assert_eq!(&response[..4], &[0xBA, 0x78, 0x16, 0xBF]);
    assert_ne!(response, b"abc".to_vec());
}

#[test]
fn only_the_right_response_is_accepted() {
    let challenge = generate_challenge();
    let good = create_response(SERVER_KEY, &challenge);
    assert!(matches!(answer_response(&challenge, &good), TcpPacket::AuthAccepted));
    let mut bad = good.clone();
    bad[0] ^= 1;
    assert!(matches!(answer_response(&challenge, &bad), TcpPacket::AuthDenied));
    assert!(matches!(answer_response(&challenge, &good[..31]), TcpPacket::AuthDenied));
}

#[test]
fn login_is_answered_by_password() {
    let password = "secret".to_string();
    let right = ClientPacket::Authenticate { username: "ann".into(), password: "secret".into() };
    let wrong = ClientPacket::Authenticate { username: "ann".into(), password: "guess".into() };
    assert_eq!(answer_login(&password, &right), LoginAnswer::Accept { uid: 0 });
    assert_eq!(answer_login(&password, &wrong), LoginAnswer::Deny);
    assert_eq!(answer_login(&password, &ClientPacket::Disconnect), LoginAnswer::NotAuthenticating);
    assert!(matches!(LoginAnswer::Accept { uid: 0 }.reply(), Some(ServerPacket::AuthAccepted { uid: 0 })));
    assert!(matches!(LoginAnswer::Deny.reply(), Some(ServerPacket::AuthDenied)));
    assert!(LoginAnswer::NotAuthenticating.reply().is_none());
}

#[test]
fn default_server_config_is_valid() {
    let config = ServerConfig::default();
    assert_eq!(config.server_name, "localhost");
    assert_eq!(config.network.bind_address, "0.0.0.0");
    assert_eq!(config.network.quic_port, 5001);
    assert_eq!(config.tls.certificate, "certs/server_cert.der");
    assert_eq!(config.media.max_streams, 10);
    assert_eq!(config.security.password, "password");
    assert_eq!(config.validate(), Ok(()));
}

#[test]
fn server_config_checks_come_in_order() {
    let mut config = ServerConfig::default();
    config.tls.private_key = String::new();
    assert_eq!(config.validate(), Err(ServerConfigError::MissingPrivateKeyPath));
    config.tls.certificate = String::new();
    assert_eq!(config.validate(), Err(ServerConfigError::MissingCertificatePath));
    config.network.quic_port = 0;
    assert_eq!(config.validate(), Err(ServerConfigError::InvalidQuicPort));
    config.server_name = " \t\u{3000}".to_string();
    assert_eq!(config.validate(), Err(ServerConfigError::MissingServerName));
}

#[test]
fn changes_announced_at_most_once_per_user() {
    let mut state = ServerState::new();
    for uid in 1..=5u64 {
        state.register(uid, format!("u{uid}"));
    }
    let name = "u3".to_string();
    let out = state.start_stream(3, &name);
    let ids = recipients(&out);
    assert_eq!(ids, vec![1, 2, 3, 4, 5]);
    let out = state.disconnect(3, &name);
    assert_eq!(recipients(&out), vec![1, 2, 4, 5]);
    assert!(out
        .iter()
        .all(|(_, p)| matches!(p, TcpPacket::UserLeft { uid: 3, username } if username == "u3")));
    assert!(!state.streams.contains_key(&3));
}

#[test]
fn registering_and_leaving_restores_the_users() {
    let mut state = ServerState::new();
    state.register(1, "ann".to_string());
    state.register(2, "bob".to_string());
    let before: Vec<u64> = {
        let mut ids: Vec<u64> = state.users.keys().copied().collect();
        ids.sort();
        ids
    };
    state.register(3, "cy".to_string());
    state.leave(3, &"cy".to_string());
    let mut after: Vec<u64> = state.users.keys().copied().collect();
    after.sort();
    assert_eq!(before, after);
}

#[test]
fn users_stay_under_their_session_ids() {
    let mut state = ServerState::new();
    state.register(10, "ann".to_string());
    state.register(11, "bob".to_string());
    state.register_udp(11, addr(2, 9000));
    for (id, client) in &state.users {
        assert_eq!(client.session_id, *id);
    }
    assert_eq!(state.users.get(&11).unwrap().udp_addr, Some(addr(2, 9000)));
    assert_eq!(state.users.get(&10).unwrap().udp_addr, None);
}
