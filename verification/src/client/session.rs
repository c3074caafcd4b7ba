//! The decisions of the client's network tasks: the login exchange, the
//! packet each command is sent as, and the event each server packet
//! becomes.
use vstd::prelude::*;
use crate::client::command::{ClientCommand, ClientEvent, ClientEventV};
use crate::client::config::ClientConfig;
use crate::media::state::Media;
use crate::protocol::command::{ClientPacket, ClientPacketV, ServerPacket, ServerPacketV};

verus! {

/// Why a login failed.
#[derive(Debug, Clone, Copy, PartialEq, Eq, Structural)]
pub enum LoginError {
    /// The server refused the username and password.
    Denied,
    /// The server answered with something other than a login answer.
    Unexpected,
}

/// The first packet of a connection: the configured username and password.
pub fn login_request(config: &ClientConfig) -> (packet: ClientPacket)
    ensures
        packet@ == (ClientPacketV::Authenticate {
            username: config.username@,
            password: config.server_password@,
        }),
{
    ClientPacket::Authenticate {
        username: config.username.clone(),
        password: config.server_password.clone(),
    }
}

/// What the server's answer to a login means: the session id when it was
/// accepted.
pub open spec fn login_outcome(answer: ServerPacketV) -> Result<u64, LoginError> {
    match answer {
        ServerPacketV::AuthAccepted { uid } => Ok(uid),
        ServerPacketV::AuthDenied => Err(LoginError::Denied),
        _ => Err(LoginError::Unexpected),
    }
}

/// Reads the server's answer to a login.
pub fn login_result(answer: &ServerPacket) -> (res: Result<u64, LoginError>)
    ensures
        res == login_outcome(answer@),
{
    match answer {
        ServerPacket::AuthAccepted { uid } => Ok(*uid),
        ServerPacket::AuthDenied => Err(LoginError::Denied),
        _ => Err(LoginError::Unexpected),
    }
}

/// The packet a command is sent as.
pub open spec fn command_packet_view(command: ClientCommand) -> ClientPacketV {
    match command {
        ClientCommand::StartStream => ClientPacketV::StreamStarted,
        ClientCommand::StopStream => ClientPacketV::StreamStopped,
        ClientCommand::WatchStream { uid } => ClientPacketV::WatchStream { uid },
        ClientCommand::LeaveStream { uid } => ClientPacketV::LeaveStream { uid },
        ClientCommand::Disconnect => ClientPacketV::Disconnect,
    }
}

/// Turns a command of the interface into the packet sent to the server;
/// starting and stopping a stream also switch broadcasting on and off.
pub fn command_packet(media: &mut Media, command: ClientCommand) -> (packet: ClientPacket)
    ensures
        packet@ == command_packet_view(command),
        final(media)@ == match command {
            ClientCommand::StartStream => true,
            ClientCommand::StopStream => false,
            _ => old(media)@,
        },
{
    match command {
        ClientCommand::StartStream => {
            media.start_streaming();
            ClientPacket::StreamStarted
        },
        ClientCommand::StopStream => {
            media.stop_streaming();
            ClientPacket::StreamStopped
        },
        ClientCommand::WatchStream { uid } => ClientPacket::WatchStream { uid },
        ClientCommand::LeaveStream { uid } => ClientPacket::LeaveStream { uid },
        ClientCommand::Disconnect => ClientPacket::Disconnect,
    }
}

/// The event a server packet becomes once logged in; a login answer at
/// that point becomes none.
pub open spec fn event_view(packet: ServerPacketV) -> Option<ClientEventV> {
    match packet {
        ServerPacketV::UserJoined { uid, username } => Some(ClientEventV::UserJoined { uid, username }),
        ServerPacketV::UserLeft { uid, username } => Some(ClientEventV::UserLeft { uid, username }),
        ServerPacketV::StreamStarted { uid, username } => Some(
            ClientEventV::StreamStarted { uid, username },
        ),
        ServerPacketV::StreamStopped { uid, username } => Some(
            ClientEventV::StreamStopped { uid, username },
        ),
        ServerPacketV::InitialState { users, streams } => Some(
            ClientEventV::InitialState { users, streams },
        ),
        ServerPacketV::Error { error } => Some(ClientEventV::Error(error)),
        ServerPacketV::AuthAccepted { .. } => None,
        ServerPacketV::AuthDenied => None,
    }
}

/// Turns a packet from the server into the event the interface is given.
pub fn server_event(packet: ServerPacket) -> (event: Option<ClientEvent>)
    ensures
        match event_view(packet@) {
            Some(v) => event matches Some(e) && e@ == v,
            None => event is None,
        },
        event is None <==> is_login_answer(packet@),
        event matches Some(e) ==> reported_packet(e@) == Some(packet@),
{
    proof {
        every_packet_reaches_the_interface(packet@);
    }
    match packet {
        ServerPacket::UserJoined { uid, username } => Some(ClientEvent::UserJoined { uid, username }),
        ServerPacket::UserLeft { uid, username } => Some(ClientEvent::UserLeft { uid, username }),
        ServerPacket::StreamStarted { uid, username } => Some(
            ClientEvent::StreamStarted { uid, username },
        ),
        ServerPacket::StreamStopped { uid, username } => Some(
            ClientEvent::StreamStopped { uid, username },
        ),
        ServerPacket::InitialState { users, streams } => Some(
            ClientEvent::InitialState { users, streams },
        ),
        ServerPacket::Error { error } => Some(ClientEvent::Error(error)),
        ServerPacket::AuthAccepted { .. } => None,
        ServerPacket::AuthDenied => None,
    }
}

/// The server packet that an event of the interface reports, if it reports
/// one: the event of the same kind with the same uid, name, lists or error
/// text.
pub open spec fn reported_packet(event: ClientEventV) -> Option<ServerPacketV> {
    match event {
        ClientEventV::UserJoined { uid, username } => Some(ServerPacketV::UserJoined { uid, username }),
        ClientEventV::UserLeft { uid, username } => Some(ServerPacketV::UserLeft { uid, username }),
        ClientEventV::StreamStarted { uid, username } => Some(
            ServerPacketV::StreamStarted { uid, username },
        ),
        ClientEventV::StreamStopped { uid, username } => Some(
            ServerPacketV::StreamStopped { uid, username },
        ),
        ClientEventV::InitialState { users, streams } => Some(
            ServerPacketV::InitialState { users, streams },
        ),
        ClientEventV::Error(error) => Some(ServerPacketV::Error { error }),
        _ => None,
    }
}

/// Whether a server packet is an answer to a login.
pub open spec fn is_login_answer(packet: ServerPacketV) -> bool {
    packet is AuthAccepted || packet is AuthDenied
}

/// Once logged in, every server packet but a login answer reaches the
/// interface, as the event that reports exactly that packet (same kind,
/// same uid and name, same lists, same error text); a login answer reaches
/// it as no event.
pub proof fn every_packet_reaches_the_interface(packet: ServerPacketV)
    ensures
        event_view(packet) is None <==> is_login_answer(packet),
        event_view(packet) matches Some(e) ==> reported_packet(e) == Some(packet),
{
}

} // verus!
