//! What the client's interface asks of its network task, and what the
//! network task tells the interface.
use vstd::prelude::*;
use crate::protocol::command::{StreamInfo, UserInfo, streams_view, users_view};

verus! {

/// Something that happened on the connection, for the interface to show.
pub enum ClientEvent {
    Connected,
    Authenticated { uid: u64 },
    UserJoined { uid: u64, username: String },
    UserLeft { uid: u64, username: String },
    StreamStarted { uid: u64, username: String },
    StreamStopped { uid: u64, username: String },
    InitialState { users: Vec<UserInfo>, streams: Vec<StreamInfo> },
    Error(String),
    Disconnected,
    WatchStream { uid: u64, username: String, stream_uid: u64, stream_username: String },
}

/// The mathematical content of a [`ClientEvent`]; users and streams are
/// (uid, name) pairs.
pub enum ClientEventV {
    Connected,
    Authenticated { uid: u64 },
    UserJoined { uid: u64, username: Seq<char> },
    UserLeft { uid: u64, username: Seq<char> },
    StreamStarted { uid: u64, username: Seq<char> },
    StreamStopped { uid: u64, username: Seq<char> },
    InitialState { users: Seq<(u64, Seq<char>)>, streams: Seq<(u64, Seq<char>)> },
    Error(Seq<char>),
    Disconnected,
    WatchStream { uid: u64, username: Seq<char>, stream_uid: u64, stream_username: Seq<char> },
}

impl View for ClientEvent {
    type V = ClientEventV;

    open spec fn view(&self) -> ClientEventV {
        match self {
            ClientEvent::Connected => ClientEventV::Connected,
            ClientEvent::Authenticated { uid } => ClientEventV::Authenticated { uid: *uid },
            ClientEvent::UserJoined { uid, username } => ClientEventV::UserJoined {
                uid: *uid,
                username: username@,
            },
            ClientEvent::UserLeft { uid, username } => ClientEventV::UserLeft {
                uid: *uid,
                username: username@,
            },
            ClientEvent::StreamStarted { uid, username } => ClientEventV::StreamStarted {
                uid: *uid,
                username: username@,
            },
            ClientEvent::StreamStopped { uid, username } => ClientEventV::StreamStopped {
                uid: *uid,
                username: username@,
            },
            ClientEvent::InitialState { users, streams } => ClientEventV::InitialState {
                users: users_view(users@),
                streams: streams_view(streams@),
            },
            ClientEvent::Error(e) => ClientEventV::Error(e@),
            ClientEvent::Disconnected => ClientEventV::Disconnected,
            ClientEvent::WatchStream { uid, username, stream_uid, stream_username } =>
                ClientEventV::WatchStream {
                uid: *uid,
                username: username@,
                stream_uid: *stream_uid,
                stream_username: stream_username@,
            },
        }
    }
}

/// What the interface asks the network task to do.
#[derive(Debug, Clone, Copy, PartialEq, Eq, Structural)]
pub enum ClientCommand {
    StartStream,
    StopStream,
    Disconnect,
    WatchStream { uid: u64 },
    LeaveStream { uid: u64 },
}

/// What the client asks of its encoder.
#[derive(Debug, Clone, Copy, PartialEq, Eq, Structural)]
pub enum EncoderCommand {
    ForceKeyframe,
}

} // verus!
