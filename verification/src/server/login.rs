//! How the server answers the first packet on a client's control stream.
use vstd::prelude::*;
use crate::protocol::command::{ClientPacket, ClientPacketV, ServerPacket, ServerPacketV};

verus! {

/// The server's decision on the first packet of a connection.
#[derive(Debug, Clone, Copy, PartialEq, Eq, Structural)]
pub enum LoginAnswer {
    /// The password is right: the client is accepted under session id `uid`.
    Accept { uid: u64 },
    /// The password is wrong: the client is told so and the connection fails.
    Deny,
    /// The packet is no authentication: nothing is sent and the connection
    /// fails.
    NotAuthenticating,
}

/// The decision on a first packet, given the server's password: an
/// authentication with that password is accepted under session id 0, one
/// with another password is denied, and any other packet is refused.
pub open spec fn login_answer(password: Seq<char>, packet: ClientPacketV) -> LoginAnswer {
    match packet {
        ClientPacketV::Authenticate { username: _, password: given } => if given == password {
            LoginAnswer::Accept { uid: 0 }
        } else {
            LoginAnswer::Deny
        },
        _ => LoginAnswer::NotAuthenticating,
    }
}

/// Decides how to answer the first packet of a connection.
pub fn answer_login(password: &String, packet: &ClientPacket) -> (answer: LoginAnswer)
    ensures
        answer == login_answer(password@, packet@),
{
    match packet {
        ClientPacket::Authenticate { username: _, password: given } => {
            if *given == *password {
                LoginAnswer::Accept { uid: 0 }
            } else {
                LoginAnswer::Deny
            }
        },
        _ => LoginAnswer::NotAuthenticating,
    }
}

impl LoginAnswer {
    /// The packet the client is sent, if any.
    pub fn reply(&self) -> (packet: Option<ServerPacket>)
        ensures
            match *self {
                LoginAnswer::Accept { uid } => packet matches Some(p) && p@ == ServerPacketV::AuthAccepted { uid },
                LoginAnswer::Deny => packet matches Some(p) && p@ == ServerPacketV::AuthDenied,
                LoginAnswer::NotAuthenticating => packet is None,
            },
    {
        match self {
            LoginAnswer::Accept { uid } => Some(ServerPacket::AuthAccepted { uid: *uid }),
            LoginAnswer::Deny => Some(ServerPacket::AuthDenied),
            LoginAnswer::NotAuthenticating => None,
        }
    }
}

} // verus!
