//! Control packets sent over the reliable QUIC stream.
use vstd::prelude::*;
use super::packet_id;
use super::wire::{
    fits_u16, put_string, utf8, put_u32, put_u64, read_string, read_u32, read_u64, string_field, take_string,
    take_u32, take_u64, u32_be, u64_be, lemma_take_string_prefix, lemma_take_u32_prefix,
    lemma_take_u64_prefix,
};

verus! {

/// A packet that has a byte form on the control stream.
pub trait Packet: Sized + View {
    /// Whether the packet can be written (every string fits its u16 length).
    spec fn encodable(&self) -> bool;

    /// The bytes a packet is written as.
    spec fn wire(v: Self::V) -> Seq<u8>;

    /// What a buffer reads as.
    spec fn parse(buf: Seq<u8>) -> Option<Self::V>;

    fn encode(&self) -> (out: Vec<u8>)
        requires
            self.encodable(),
        ensures
            out@ == Self::wire(self@),
    ;

    /// Whether the packet can be written.
    fn fits_wire(&self) -> (fits: bool)
        ensures
            fits == self.encodable(),
    ;

    fn decode(buf: &[u8]) -> (res: Option<Self>)
        ensures
            match Self::parse(buf@) {
                None => res is None,
                Some(v) => res matches Some(p) && p@ == v,
            },
    ;
}

/// A user known to the server.
pub struct UserInfo {
    pub uid: u64,
    pub username: String,
}

/// A stream being broadcast by a user.
pub struct StreamInfo {
    pub uid: u64,
    pub username: String,
}

impl View for UserInfo {
    type V = (u64, Seq<char>);

    open spec fn view(&self) -> (u64, Seq<char>) {
        (self.uid, self.username@)
    }
}

impl View for StreamInfo {
    type V = (u64, Seq<char>);

    open spec fn view(&self) -> (u64, Seq<char>) {
        (self.uid, self.username@)
    }
}

/// Packets sent by the client.
pub enum ClientPacket {
    Authenticate { username: String, password: String },
    StreamStarted,
    StreamStopped,
    WatchStream { uid: u64 },
    LeaveStream { uid: u64 },
    Disconnect,
}

/// The mathematical content of a [`ClientPacket`].
pub enum ClientPacketV {
    Authenticate { username: Seq<char>, password: Seq<char> },
    StreamStarted,
    StreamStopped,
    WatchStream { uid: u64 },
    LeaveStream { uid: u64 },
    Disconnect,
}

impl View for ClientPacket {
    type V = ClientPacketV;

    open spec fn view(&self) -> ClientPacketV {
        match self {
            ClientPacket::Authenticate { username, password } => ClientPacketV::Authenticate {
                username: username@,
                password: password@,
            },
            ClientPacket::StreamStarted => ClientPacketV::StreamStarted,
            ClientPacket::StreamStopped => ClientPacketV::StreamStopped,
            ClientPacket::WatchStream { uid } => ClientPacketV::WatchStream { uid: *uid },
            ClientPacket::LeaveStream { uid } => ClientPacketV::LeaveStream { uid: *uid },
            ClientPacket::Disconnect => ClientPacketV::Disconnect,
        }
    }
}

/// Whether every string of a client packet fits its length prefix.
pub open spec fn client_encodable(p: ClientPacketV) -> bool {
    match p {
        ClientPacketV::Authenticate { username, password } => fits_u16(username) && fits_u16(
            password,
        ),
        _ => true,
    }
}

/// The bytes of a client packet: its id, then its fields.
pub open spec fn client_wire(p: ClientPacketV) -> Seq<u8> {
    match p {
        ClientPacketV::Authenticate { username, password } => seq![packet_id::CLIENT_AUTHENTICATE]
            + string_field(username) + string_field(password),
        ClientPacketV::StreamStarted => seq![packet_id::CLIENT_STREAM_START],
        ClientPacketV::StreamStopped => seq![packet_id::CLIENT_STREAM_STOP],
        ClientPacketV::WatchStream { uid } => seq![packet_id::CLIENT_WATCH_STREAM] + u64_be(uid),
        ClientPacketV::LeaveStream { uid } => seq![packet_id::CLIENT_LEAVE_STREAM] + u64_be(uid),
        ClientPacketV::Disconnect => seq![packet_id::CLIENT_DISCONNECT],
    }
}

/// What a buffer reads as when it comes from a client. Bytes after the last
/// field of an authentication, watch or leave packet are ignored; the
/// packets without fields must be exactly one byte.
pub open spec fn client_parse(buf: Seq<u8>) -> Option<ClientPacketV> {
    if buf.len() == 0 {
        None
    } else {
        let rest = buf.skip(1);
        if buf[0] == packet_id::CLIENT_AUTHENTICATE {
            match take_string(rest) {
                None => None,
                Some((username, r)) => match take_string(r) {
                    None => None,
                    Some((password, _)) => Some(
                        ClientPacketV::Authenticate { username, password },
                    ),
                },
            }
        } else if buf[0] == packet_id::CLIENT_STREAM_START {
            if buf.len() == 1 {
                Some(ClientPacketV::StreamStarted)
            } else {
                None
            }
        } else if buf[0] == packet_id::CLIENT_STREAM_STOP {
            if buf.len() == 1 {
                Some(ClientPacketV::StreamStopped)
            } else {
                None
            }
        } else if buf[0] == packet_id::CLIENT_WATCH_STREAM {
            match take_u64(rest) {
                None => None,
                Some((uid, _)) => Some(ClientPacketV::WatchStream { uid }),
            }
        } else if buf[0] == packet_id::CLIENT_LEAVE_STREAM {
            match take_u64(rest) {
                None => None,
                Some((uid, _)) => Some(ClientPacketV::LeaveStream { uid }),
            }
        } else if buf[0] == packet_id::CLIENT_DISCONNECT {
            if buf.len() == 1 {
                Some(ClientPacketV::Disconnect)
            } else {
                None
            }
        } else {
            None
        }
    }
}

impl Packet for ClientPacket {
    open spec fn encodable(&self) -> bool {
        client_encodable(self@)
    }

    open spec fn wire(v: ClientPacketV) -> Seq<u8> {
        client_wire(v)
    }

    open spec fn parse(buf: Seq<u8>) -> Option<ClientPacketV> {
        client_parse(buf)
    }

    fn encode(&self) -> (out: Vec<u8>) {
        let mut out: Vec<u8> = Vec::new();
        match self {
            ClientPacket::Authenticate { username, password } => {
                out.push(packet_id::CLIENT_AUTHENTICATE);
                put_string(&mut out, username.as_str());
                put_string(&mut out, password.as_str());
            },
            ClientPacket::StreamStarted => {
                out.push(packet_id::CLIENT_STREAM_START);
            },
            ClientPacket::StreamStopped => {
                out.push(packet_id::CLIENT_STREAM_STOP);
            },
            ClientPacket::WatchStream { uid } => {
                out.push(packet_id::CLIENT_WATCH_STREAM);
                put_u64(&mut out, *uid);
            },
            ClientPacket::LeaveStream { uid } => {
                out.push(packet_id::CLIENT_LEAVE_STREAM);
                put_u64(&mut out, *uid);
            },
            ClientPacket::Disconnect => {
                out.push(packet_id::CLIENT_DISCONNECT);
            },
        }
        assert(out@ =~= client_wire(self@));
        out
    }

    fn fits_wire(&self) -> (fits: bool) {
        match self {
            ClientPacket::Authenticate { username, password } => text_fits(username) && text_fits(
                password,
            ),
            _ => true,
        }
    }

    fn decode(buf: &[u8]) -> (res: Option<ClientPacket>) {
        if buf.len() == 0 {
            return None;
        }
        let id = buf[0];
        let mut rest: &[u8] = &buf[1..buf.len()];
        assert(rest@ == buf@.skip(1));
        if id == packet_id::CLIENT_AUTHENTICATE {
            let username = match read_string(&mut rest) {
                Some(u) => u,
                None => return None,
            };
            let password = match read_string(&mut rest) {
                Some(p) => p,
                None => return None,
            };
            Some(ClientPacket::Authenticate { username, password })
        } else if id == packet_id::CLIENT_STREAM_START {
            if buf.len() != 1 {
                return None;
            }
            Some(ClientPacket::StreamStarted)
        } else if id == packet_id::CLIENT_STREAM_STOP {
            if buf.len() != 1 {
                return None;
            }
            Some(ClientPacket::StreamStopped)
        } else if id == packet_id::CLIENT_WATCH_STREAM {
            let uid = match read_u64(&mut rest) {
                Some(u) => u,
                None => return None,
            };
            Some(ClientPacket::WatchStream { uid })
        } else if id == packet_id::CLIENT_LEAVE_STREAM {
            let uid = match read_u64(&mut rest) {
                Some(u) => u,
                None => return None,
            };
            Some(ClientPacket::LeaveStream { uid })
        } else if id == packet_id::CLIENT_DISCONNECT {
            if buf.len() != 1 {
                return None;
            }
            Some(ClientPacket::Disconnect)
        } else {
            None
        }
    }
}

/// A client packet reads back as itself once written, provided its strings
/// fit their length prefixes.
pub proof fn client_packet_roundtrip(p: ClientPacketV)
    requires
        client_encodable(p),
    ensures
        client_parse(client_wire(p)) == Some(p),
{
    let b = client_wire(p);
    match p {
        ClientPacketV::Authenticate { username, password } => {
            assert(b.skip(1) =~= string_field(username) + (string_field(password) + seq![]));
            lemma_take_string_prefix(username, string_field(password) + seq![]);
            lemma_take_string_prefix(password, seq![]);
        },
        ClientPacketV::WatchStream { uid } => {
            assert(b.skip(1) =~= u64_be(uid) + seq![]);
            lemma_take_u64_prefix(uid, seq![]);
        },
        ClientPacketV::LeaveStream { uid } => {
            assert(b.skip(1) =~= u64_be(uid) + seq![]);
            lemma_take_u64_prefix(uid, seq![]);
        },
        _ => {},
    }
}


/// Packets sent by the server.
pub enum ServerPacket {
    AuthAccepted { uid: u64 },
    AuthDenied,
    UserJoined { uid: u64, username: String },
    UserLeft { uid: u64, username: String },
    StreamStarted { uid: u64, username: String },
    StreamStopped { uid: u64, username: String },
    InitialState { users: Vec<UserInfo>, streams: Vec<StreamInfo> },
    Error { error: String },
}

/// The mathematical content of a [`ServerPacket`]; users and streams are
/// (uid, name) pairs.
pub enum ServerPacketV {
    AuthAccepted { uid: u64 },
    AuthDenied,
    UserJoined { uid: u64, username: Seq<char> },
    UserLeft { uid: u64, username: Seq<char> },
    StreamStarted { uid: u64, username: Seq<char> },
    StreamStopped { uid: u64, username: Seq<char> },
    InitialState { users: Seq<(u64, Seq<char>)>, streams: Seq<(u64, Seq<char>)> },
    Error { error: Seq<char> },
}

/// The (uid, name) pairs of a list of users.
pub open spec fn users_view(v: Seq<UserInfo>) -> Seq<(u64, Seq<char>)> {
    v.map_values(|u: UserInfo| u@)
}

/// The (uid, name) pairs of a list of streams.
pub open spec fn streams_view(v: Seq<StreamInfo>) -> Seq<(u64, Seq<char>)> {
    v.map_values(|s: StreamInfo| s@)
}

impl View for ServerPacket {
    type V = ServerPacketV;

    open spec fn view(&self) -> ServerPacketV {
        match self {
            ServerPacket::AuthAccepted { uid } => ServerPacketV::AuthAccepted { uid: *uid },
            ServerPacket::AuthDenied => ServerPacketV::AuthDenied,
            ServerPacket::UserJoined { uid, username } => ServerPacketV::UserJoined {
                uid: *uid,
                username: username@,
            },
            ServerPacket::UserLeft { uid, username } => ServerPacketV::UserLeft {
                uid: *uid,
                username: username@,
            },
            ServerPacket::StreamStarted { uid, username } => ServerPacketV::StreamStarted {
                uid: *uid,
                username: username@,
            },
            ServerPacket::StreamStopped { uid, username } => ServerPacketV::StreamStopped {
                uid: *uid,
                username: username@,
            },
            ServerPacket::InitialState { users, streams } => ServerPacketV::InitialState {
                users: users_view(users@),
                streams: streams_view(streams@),
            },
            ServerPacket::Error { error } => ServerPacketV::Error { error: error@ },
        }
    }
}

/// One (uid, name) entry of the initial state: the uid, then the name.
pub open spec fn entry_wire(e: (u64, Seq<char>)) -> Seq<u8> {
    u64_be(e.0) + string_field(e.1)
}

/// A list of entries, one after the other.
pub open spec fn entries_wire(es: Seq<(u64, Seq<char>)>) -> Seq<u8>
    decreases es.len(),
{
    if es.len() == 0 {
        seq![]
    } else {
        entries_wire(es.drop_last()) + entry_wire(es.last())
    }
}

/// Whether every name of a list fits its length prefix.
pub open spec fn entries_fit(es: Seq<(u64, Seq<char>)>) -> bool {
    forall|i: int| 0 <= i < es.len() ==> fits_u16(#[trigger] es[i].1)
}

/// Whether every string of a server packet fits its length prefix and
/// every list its u32 count.
pub open spec fn server_encodable(p: ServerPacketV) -> bool {
    match p {
        ServerPacketV::UserJoined { username, .. } => fits_u16(username),
        ServerPacketV::UserLeft { username, .. } => fits_u16(username),
        ServerPacketV::StreamStarted { username, .. } => fits_u16(username),
        ServerPacketV::StreamStopped { username, .. } => fits_u16(username),
        ServerPacketV::Error { error } => fits_u16(error),
        ServerPacketV::InitialState { users, streams } => entries_fit(users) && entries_fit(streams)
            && users.len() <= u32::MAX && streams.len() <= u32::MAX,
        _ => true,
    }
}

/// The bytes of a server packet: its id, then its fields. The counts of the
/// initial state are the list lengths cut to 32 bits.
pub open spec fn server_wire(p: ServerPacketV) -> Seq<u8> {
    match p {
        ServerPacketV::AuthAccepted { uid } => seq![packet_id::SERVER_AUTH_ACCEPTED] + u64_be(uid),
        ServerPacketV::AuthDenied => seq![packet_id::SERVER_AUTH_DENIED],
        ServerPacketV::UserJoined { uid, username } => seq![packet_id::SERVER_USER_JOINED] + u64_be(
            uid,
        ) + string_field(username),
        ServerPacketV::UserLeft { uid, username } => seq![packet_id::SERVER_USER_LEFT] + u64_be(uid)
            + string_field(username),
        ServerPacketV::StreamStarted { uid, username } => seq![packet_id::SERVER_STREAM_STARTED]
            + u64_be(uid) + string_field(username),
        ServerPacketV::StreamStopped { uid, username } => seq![packet_id::SERVER_STREAM_STOPPED]
            + u64_be(uid) + string_field(username),
        ServerPacketV::Error { error } => seq![packet_id::SERVER_ERROR] + string_field(error),
        ServerPacketV::InitialState { users, streams } => seq![packet_id::SERVER_INITIAL_STATE]
            + u32_be(users.len() as u32) + entries_wire(users) + u32_be(streams.len() as u32)
            + entries_wire(streams),
    }
}

/// Reading one (uid, name) entry.
pub open spec fn take_entry(b: Seq<u8>) -> Option<((u64, Seq<char>), Seq<u8>)> {
    match take_u64(b) {
        None => None,
        Some((uid, r)) => match take_string(r) {
            None => None,
            Some((name, r2)) => Some(((uid, name), r2)),
        },
    }
}

/// Reading `n` entries one after the other.
pub open spec fn take_entries(b: Seq<u8>, n: nat) -> Option<(Seq<(u64, Seq<char>)>, Seq<u8>)>
    decreases n,
{
    if n == 0 {
        Some((seq![], b))
    } else {
        match take_entries(b, (n - 1) as nat) {
            None => None,
            Some((es, r)) => match take_entry(r) {
                None => None,
                Some((e, r2)) => Some((es.push(e), r2)),
            },
        }
    }
}

/// Reading a u32 count and then that many entries.
pub open spec fn take_list(b: Seq<u8>) -> Option<(Seq<(u64, Seq<char>)>, Seq<u8>)> {
    match take_u32(b) {
        None => None,
        Some((n, r)) => take_entries(r, n as nat),
    }
}

/// Reading a uid and a name, for the packets that carry both.
pub open spec fn take_uid_name(b: Seq<u8>) -> Option<(u64, Seq<char>)> {
    match take_u64(b) {
        None => None,
        Some((uid, r)) => match take_string(r) {
            None => None,
            Some((name, _)) => Some((uid, name)),
        },
    }
}

/// What a buffer reads as when it comes from the server. Bytes after the
/// last field are ignored, except in the initial state, which must end
/// exactly after its second list, and the denial, which must be one byte.
pub open spec fn server_parse(buf: Seq<u8>) -> Option<ServerPacketV> {
    if buf.len() == 0 {
        None
    } else {
        let rest = buf.skip(1);
        if buf[0] == packet_id::SERVER_AUTH_ACCEPTED {
            match take_u64(rest) {
                None => None,
                Some((uid, _)) => Some(ServerPacketV::AuthAccepted { uid }),
            }
        } else if buf[0] == packet_id::SERVER_AUTH_DENIED {
            if buf.len() == 1 {
                Some(ServerPacketV::AuthDenied)
            } else {
                None
            }
        } else if buf[0] == packet_id::SERVER_USER_JOINED {
            match take_uid_name(rest) {
                None => None,
                Some((uid, username)) => Some(ServerPacketV::UserJoined { uid, username }),
            }
        } else if buf[0] == packet_id::SERVER_USER_LEFT {
            match take_uid_name(rest) {
                None => None,
                Some((uid, username)) => Some(ServerPacketV::UserLeft { uid, username }),
            }
        } else if buf[0] == packet_id::SERVER_STREAM_STARTED {
            match take_uid_name(rest) {
                None => None,
                Some((uid, username)) => Some(ServerPacketV::StreamStarted { uid, username }),
            }
        } else if buf[0] == packet_id::SERVER_STREAM_STOPPED {
            match take_uid_name(rest) {
                None => None,
                Some((uid, username)) => Some(ServerPacketV::StreamStopped { uid, username }),
            }
        } else if buf[0] == packet_id::SERVER_ERROR {
            match take_string(rest) {
                None => None,
                Some((error, _)) => Some(ServerPacketV::Error { error }),
            }
        } else if buf[0] == packet_id::SERVER_INITIAL_STATE {
            match take_list(rest) {
                None => None,
                Some((users, r)) => match take_list(r) {
                    None => None,
                    Some((streams, r2)) => if r2.len() == 0 {
                        Some(ServerPacketV::InitialState { users, streams })
                    } else {
                        None
                    },
                },
            }
        } else {
            None
        }
    }
}

/// Appends a uid and a name.
fn put_entry(out: &mut Vec<u8>, uid: u64, name: &String)
    requires
        fits_u16(name@),
    ensures
        final(out)@ == old(out)@ + entry_wire((uid, name@)),
{
    put_u64(out, uid);
    put_string(out, name.as_str());
    assert(final(out)@ =~= old(out)@ + entry_wire((uid, name@)));
}

/// Reads a uid and a name.
fn read_entry(buf: &mut &[u8]) -> (res: Option<(u64, String)>)
    ensures
        match take_entry(old(buf)@) {
            None => res is None,
            Some((e, rest)) => res matches Some((uid, name)) && uid == e.0 && name@ == e.1
                && final(buf)@ == rest,
        },
{
    let uid = match read_u64(buf) {
        Some(u) => u,
        None => return None,
    };
    let name = match read_string(buf) {
        Some(n) => n,
        None => return None,
    };
    Some((uid, name))
}

/// Whether a string fits a u16 length prefix.
fn text_fits(text: &String) -> (fits: bool)
    ensures
        fits == fits_u16(text@),
{
    let bytes = text.as_str().as_bytes();
    proof {
        assert(bytes@ == utf8(text@));
    }
    bytes.len() <= 65535
}

/// Whether every user name of a list fits its length prefix.
fn users_fit(users: &Vec<UserInfo>) -> (fits: bool)
    ensures
        fits == entries_fit(users_view(users@)),
{
    let mut i: usize = 0;
    while i < users.len()
        invariant
            i <= users@.len(),
            forall|j: int| 0 <= j < i ==> fits_u16(#[trigger] users@[j].username@),
        decreases users.len() - i,
    {
        if !text_fits(&users[i].username) {
            proof {
                assert(users_view(users@)[i as int].1 == users@[i as int].username@);
            }
            return false;
        }
        i = i + 1;
    }
    proof {
        assert forall|j: int| 0 <= j < users_view(users@).len() implies fits_u16(
            #[trigger] users_view(users@)[j].1,
        ) by {
            assert(users_view(users@)[j].1 == users@[j].username@);
        }
    }
    true
}

/// Whether every streamer name of a list fits its length prefix.
fn streams_fit(streams: &Vec<StreamInfo>) -> (fits: bool)
    ensures
        fits == entries_fit(streams_view(streams@)),
{
    let mut i: usize = 0;
    while i < streams.len()
        invariant
            i <= streams@.len(),
            forall|j: int| 0 <= j < i ==> fits_u16(#[trigger] streams@[j].username@),
        decreases streams.len() - i,
    {
        if !text_fits(&streams[i].username) {
            proof {
                assert(streams_view(streams@)[i as int].1 == streams@[i as int].username@);
            }
            return false;
        }
        i = i + 1;
    }
    proof {
        assert forall|j: int| 0 <= j < streams_view(streams@).len() implies fits_u16(
            #[trigger] streams_view(streams@)[j].1,
        ) by {
            assert(streams_view(streams@)[j].1 == streams@[j].username@);
        }
    }
    true
}

impl Packet for ServerPacket {
    open spec fn encodable(&self) -> bool {
        server_encodable(self@)
    }

    open spec fn wire(v: ServerPacketV) -> Seq<u8> {
        server_wire(v)
    }

    open spec fn parse(buf: Seq<u8>) -> Option<ServerPacketV> {
        server_parse(buf)
    }

    fn encode(&self) -> (out: Vec<u8>) {
        let mut out: Vec<u8> = Vec::new();
        match self {
            ServerPacket::AuthAccepted { uid } => {
                out.push(packet_id::SERVER_AUTH_ACCEPTED);
                put_u64(&mut out, *uid);
            },
            ServerPacket::AuthDenied => {
                out.push(packet_id::SERVER_AUTH_DENIED);
            },
            ServerPacket::UserJoined { uid, username } => {
                out.push(packet_id::SERVER_USER_JOINED);
                put_u64(&mut out, *uid);
                put_string(&mut out, username.as_str());
            },
            ServerPacket::UserLeft { uid, username } => {
                out.push(packet_id::SERVER_USER_LEFT);
                put_u64(&mut out, *uid);
                put_string(&mut out, username.as_str());
            },
            ServerPacket::StreamStarted { uid, username } => {
                out.push(packet_id::SERVER_STREAM_STARTED);
                put_u64(&mut out, *uid);
                put_string(&mut out, username.as_str());
            },
            ServerPacket::StreamStopped { uid, username } => {
                out.push(packet_id::SERVER_STREAM_STOPPED);
                put_u64(&mut out, *uid);
                put_string(&mut out, username.as_str());
            },
            ServerPacket::Error { error } => {
                out.push(packet_id::SERVER_ERROR);
                put_string(&mut out, error.as_str());
            },
            ServerPacket::InitialState { users, streams } => {
                out.push(packet_id::SERVER_INITIAL_STATE);
                put_u32(&mut out, users.len() as u32);
                let ghost before_users = out@;
                let mut i: usize = 0;
                while i < users.len()
                    invariant
                        i <= users@.len(),
                        entries_fit(users_view(users@)),
                        out@ == before_users + entries_wire(users_view(users@).take(i as int)),
                    decreases users@.len() - i,
                {
                    let ghost es = users_view(users@).take(i + 1);
                    assert(es.drop_last() =~= users_view(users@).take(i as int));
                    assert(fits_u16(users_view(users@)[i as int].1));
                    put_entry(&mut out, users[i].uid, &users[i].username);
                    i = i + 1;
                    assert(out@ =~= before_users + entries_wire(es));
                }
                assert(users_view(users@).take(i as int) =~= users_view(users@));
                put_u32(&mut out, streams.len() as u32);
                let ghost before_streams = out@;
                let mut j: usize = 0;
                while j < streams.len()
                    invariant
                        j <= streams@.len(),
                        entries_fit(streams_view(streams@)),
                        out@ == before_streams + entries_wire(streams_view(streams@).take(j as int)),
                    decreases streams@.len() - j,
                {
                    let ghost es = streams_view(streams@).take(j + 1);
                    assert(es.drop_last() =~= streams_view(streams@).take(j as int));
                    assert(fits_u16(streams_view(streams@)[j as int].1));
                    put_entry(&mut out, streams[j].uid, &streams[j].username);
                    j = j + 1;
                    assert(out@ =~= before_streams + entries_wire(es));
                }
                assert(streams_view(streams@).take(j as int) =~= streams_view(streams@));
            },
        }
        assert(out@ =~= server_wire(self@));
        out
    }

    fn fits_wire(&self) -> (fits: bool) {
        match self {
            ServerPacket::UserJoined { username, .. } => text_fits(username),
            ServerPacket::UserLeft { username, .. } => text_fits(username),
            ServerPacket::StreamStarted { username, .. } => text_fits(username),
            ServerPacket::StreamStopped { username, .. } => text_fits(username),
            ServerPacket::Error { error } => text_fits(error),
            ServerPacket::InitialState { users, streams } => users_fit(users) && streams_fit(streams)
                && users.len() <= 0xffff_ffff && streams.len() <= 0xffff_ffff,
            _ => true,
        }
    }

    fn decode(buf: &[u8]) -> (res: Option<ServerPacket>) {
        if buf.len() == 0 {
            return None;
        }
        let id = buf[0];
        let mut rest: &[u8] = &buf[1..buf.len()];
        assert(rest@ == buf@.skip(1));
        if id == packet_id::SERVER_AUTH_ACCEPTED {
            let uid = match read_u64(&mut rest) {
                Some(u) => u,
                None => return None,
            };
            Some(ServerPacket::AuthAccepted { uid })
        } else if id == packet_id::SERVER_AUTH_DENIED {
            if buf.len() != 1 {
                return None;
            }
            Some(ServerPacket::AuthDenied)
        } else if id == packet_id::SERVER_USER_JOINED {
            let (uid, username) = match read_entry(&mut rest) {
                Some(e) => e,
                None => return None,
            };
            Some(ServerPacket::UserJoined { uid, username })
        } else if id == packet_id::SERVER_USER_LEFT {
            let (uid, username) = match read_entry(&mut rest) {
                Some(e) => e,
                None => return None,
            };
            Some(ServerPacket::UserLeft { uid, username })
        } else if id == packet_id::SERVER_STREAM_STARTED {
            let (uid, username) = match read_entry(&mut rest) {
                Some(e) => e,
                None => return None,
            };
            Some(ServerPacket::StreamStarted { uid, username })
        } else if id == packet_id::SERVER_STREAM_STOPPED {
            let (uid, username) = match read_entry(&mut rest) {
                Some(e) => e,
                None => return None,
            };
            Some(ServerPacket::StreamStopped { uid, username })
        } else if id == packet_id::SERVER_ERROR {
            let error = match read_string(&mut rest) {
                Some(e) => e,
                None => return None,
            };
            Some(ServerPacket::Error { error })
        } else if id == packet_id::SERVER_INITIAL_STATE {
            let users = match read_users(&mut rest) {
                Some(u) => u,
                None => return None,
            };
            let streams = match read_streams(&mut rest) {
                Some(s) => s,
                None => return None,
            };
            if rest.len() != 0 {
                return None;
            }
            Some(ServerPacket::InitialState { users, streams })
        } else {
            None
        }
    }
}

/// Reads a u32 count and then that many users.
fn read_users(buf: &mut &[u8]) -> (res: Option<Vec<UserInfo>>)
    ensures
        match take_list(old(buf)@) {
            None => res is None,
            Some((es, rest)) => res matches Some(v) && users_view(v@) == es && final(buf)@ == rest,
        },
{
    let count = match read_u32(buf) {
        Some(c) => c,
        None => return None,
    };
    let ghost start = buf@;
    let mut users: Vec<UserInfo> = Vec::new();
    let mut k: u32 = 0;
    while k < count
        invariant
            k <= count,
            take_u32(old(buf)@) == Some((count, start)),
            take_entries(start, k as nat) == Some((users_view(users@), buf@)),
        decreases count - k,
    {
        let ghost before = buf@;
        let (uid, username) = match read_entry(buf) {
            Some(e) => e,
            None => {
                assert(take_entries(start, (k + 1) as nat) is None);
                proof { lemma_entries_none_stays_none(start, (k + 1) as nat, count as nat); }
                return None;
            },
        };
        users.push(UserInfo { uid, username });
        k = k + 1;
        assert(users_view(users@) =~= users_view(users@).drop_last().push((uid, username@)));
    }
    Some(users)
}

/// Reads a u32 count and then that many streams.
fn read_streams(buf: &mut &[u8]) -> (res: Option<Vec<StreamInfo>>)
    ensures
        match take_list(old(buf)@) {
            None => res is None,
            Some((es, rest)) => res matches Some(v) && streams_view(v@) == es && final(buf)@
                == rest,
        },
{
    let count = match read_u32(buf) {
        Some(c) => c,
        None => return None,
    };
    let ghost start = buf@;
    let mut streams: Vec<StreamInfo> = Vec::new();
    let mut k: u32 = 0;
    while k < count
        invariant
            k <= count,
            take_u32(old(buf)@) == Some((count, start)),
            take_entries(start, k as nat) == Some((streams_view(streams@), buf@)),
        decreases count - k,
    {
        let (uid, username) = match read_entry(buf) {
            Some(e) => e,
            None => {
                assert(take_entries(start, (k + 1) as nat) is None);
                proof { lemma_entries_none_stays_none(start, (k + 1) as nat, count as nat); }
                return None;
            },
        };
        streams.push(StreamInfo { uid, username });
        k = k + 1;
        assert(streams_view(streams@) =~= streams_view(streams@).drop_last().push(
            (uid, username@),
        ));
    }
    Some(streams)
}

/// Once reading `n` entries fails, reading more fails too.
proof fn lemma_entries_none_stays_none(b: Seq<u8>, n: nat, m: nat)
    requires
        take_entries(b, n) is None,
        n <= m,
    ensures
        take_entries(b, m) is None,
    decreases m - n,
{
    if n < m {
        lemma_entries_none_stays_none(b, n, (m - 1) as nat);
    }
}

/// A list of entries followed by anything reads back as the list.
proof fn lemma_take_entries_prefix(es: Seq<(u64, Seq<char>)>, rest: Seq<u8>)
    requires
        entries_fit(es),
    ensures
        take_entries(entries_wire(es) + rest, es.len()) == Some((es, rest)),
    decreases es.len(),
{
    if es.len() > 0 {
        let init = es.drop_last();
        let e = es.last();
        assert(entries_fit(init));
        assert(fits_u16(es[es.len() - 1].1));
        assert(entries_wire(es) + rest =~= entries_wire(init) + (entry_wire(e) + rest));
        lemma_take_entries_prefix(init, entry_wire(e) + rest);
        assert(entry_wire(e) + rest =~= u64_be(e.0) + (string_field(e.1) + rest));
        lemma_take_u64_prefix(e.0, string_field(e.1) + rest);
        lemma_take_string_prefix(e.1, rest);
        assert(init.push(e) =~= es);
    } else {
        assert(entries_wire(es) + rest =~= rest);
    }
}

/// A server packet reads back as itself once written, provided its strings
/// fit their length prefixes and its lists their counts.
pub proof fn server_packet_roundtrip(p: ServerPacketV)
    requires
        server_encodable(p),
    ensures
        server_parse(server_wire(p)) == Some(p),
{
    let b = server_wire(p);
    let empty = Seq::<u8>::empty();
    match p {
        ServerPacketV::AuthAccepted { uid } => {
            assert(b.skip(1) =~= u64_be(uid) + empty);
            lemma_take_u64_prefix(uid, empty);
        },
        ServerPacketV::UserJoined { uid, username } => {
            assert(b.skip(1) =~= u64_be(uid) + (string_field(username) + empty));
            lemma_take_u64_prefix(uid, string_field(username) + empty);
            lemma_take_string_prefix(username, empty);
        },
        ServerPacketV::UserLeft { uid, username } => {
            assert(b.skip(1) =~= u64_be(uid) + (string_field(username) + empty));
            lemma_take_u64_prefix(uid, string_field(username) + empty);
            lemma_take_string_prefix(username, empty);
        },
        ServerPacketV::StreamStarted { uid, username } => {
            assert(b.skip(1) =~= u64_be(uid) + (string_field(username) + empty));
            lemma_take_u64_prefix(uid, string_field(username) + empty);
            lemma_take_string_prefix(username, empty);
        },
        ServerPacketV::StreamStopped { uid, username } => {
            assert(b.skip(1) =~= u64_be(uid) + (string_field(username) + empty));
            lemma_take_u64_prefix(uid, string_field(username) + empty);
            lemma_take_string_prefix(username, empty);
        },
        ServerPacketV::Error { error } => {
            assert(b.skip(1) =~= string_field(error) + empty);
            lemma_take_string_prefix(error, empty);
        },
        ServerPacketV::InitialState { users, streams } => {
            let tail2 = entries_wire(streams) + empty;
            let tail1 = u32_be(streams.len() as u32) + tail2;
            assert(b.skip(1) =~= u32_be(users.len() as u32) + (entries_wire(users) + tail1));
            lemma_take_u32_prefix(users.len() as u32, entries_wire(users) + tail1);
            lemma_take_entries_prefix(users, tail1);
            lemma_take_u32_prefix(streams.len() as u32, tail2);
            lemma_take_entries_prefix(streams, empty);
        },
        _ => {},
    }
}

} // verus!
