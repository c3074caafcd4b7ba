//! Who is connected to the server, who is streaming, and where their video
//! goes. Every change that the other clients must hear of comes back as the
//! list of packets to send, one per recipient.
use std::collections::HashMap;
use vstd::prelude::*;
use vstd::std_specs::iter::IteratorSpec;
use crate::protocol::tcp::{TcpPacket, TcpPacketV};
use crate::protocol::video::VideoPacket;

verus! {

broadcast use vstd::std_specs::hash::group_hash_axioms;

/// Messages of the server's earlier text channel.
pub enum TcpMessage {
    Authenticated,
    SendUID(u64),
    UserJoined(String),
    UserLeft(String),
    UserStarted(String),
    UserStopped(String),
    Error(String),
}

/// A stream being broadcast.
pub struct Stream {
    pub latest_packet: Option<VideoPacket>,
}

/// Where a client's datagrams come from: an IP address (an IPv4 address in
/// its low 32 bits) and a port.
#[derive(Debug, Clone, Copy, PartialEq, Eq, Structural)]
pub struct PeerAddress {
    pub ip: u128,
    pub port: u16,
    pub is_v6: bool,
}

/// A connected client.
pub struct Client {
    pub username: String,
    pub session_id: u64,
    pub udp_addr: Option<PeerAddress>,
}

/// Everyone connected, by session id, and the streams running, by the
/// session id of the user who broadcasts them.
pub struct ServerState {
    pub users: HashMap<u64, Client>,
    pub streams: HashMap<u64, Stream>,
}

/// Whether `out` sends one packet to each of `recipients` and to nobody
/// else: `own` to the user `uid`, `others` to everyone else.
pub open spec fn delivers(
    out: Seq<(u64, TcpPacket)>,
    recipients: Set<u64>,
    uid: u64,
    own: TcpPacketV,
    others: TcpPacketV,
) -> bool {
    &&& out.len() == recipients.len()
    &&& forall|i: int|
        0 <= i < out.len() ==> recipients.contains(#[trigger] out[i].0) && out[i].1@ == (if out[i].0
            == uid {
            own
        } else {
            others
        })
    &&& forall|i: int, j: int| 0 <= i < j < out.len() ==> #[trigger] out[i].0 != #[trigger] out[j].0
    &&& forall|r: u64| #[trigger]
        recipients.contains(r) ==> exists|i: int| 0 <= i < out.len() && out[i].0 == r
}

/// The kinds of packet by which the server tells clients about a user.
enum Notice {
    Welcome,
    Joined,
    Left,
    Started,
    Stopped,
}

spec fn notice_view(n: Notice, uid: u64, name: Seq<char>) -> TcpPacketV {
    match n {
        Notice::Welcome => TcpPacketV::SendUID { uid },
        Notice::Joined => TcpPacketV::UserJoined { uid, username: name },
        Notice::Left => TcpPacketV::UserLeft { uid, username: name },
        Notice::Started => TcpPacketV::StreamStarted { uid, username: name },
        Notice::Stopped => TcpPacketV::StreamStopped { uid, username: name },
    }
}

fn notice(n: &Notice, uid: u64, username: &String) -> (p: TcpPacket)
    ensures
        p@ == notice_view(*n, uid, username@),
{
    match n {
        Notice::Welcome => TcpPacket::SendUID { uid },
        Notice::Joined => TcpPacket::UserJoined { uid, username: username.clone() },
        Notice::Left => TcpPacket::UserLeft { uid, username: username.clone() },
        Notice::Started => TcpPacket::StreamStarted { uid, username: username.clone() },
        Notice::Stopped => TcpPacket::StreamStopped { uid, username: username.clone() },
    }
}

/// The identifiers that are keys of a map, each once, in the map's order.
fn key_list<V>(m: &HashMap<u64, V>) -> (ids: Vec<u64>)
    ensures
        ids@.no_duplicates(),
        ids@.to_set() == m@.dom(),
        ids@.len() == m@.dom().len(),
{
    let ghost all = vstd::std_specs::hash::spec_keys_iter(m).remaining().unref();
    let mut ids: Vec<u64> = Vec::new();
    for k in it: m.keys()
        invariant
            it.seq().unref() == all,
            ids@ == all.take(it.index()),
    {
        ids.push(*k);
        proof {
            assert(all.take(it.index() + 1) =~= ids@);
        }
    }
    proof {
        assert(ids@ =~= all);
    }
    ids
}

/// One packet for each identifier of `ids`, in their order: `own` for
/// `uid`, `others` for everyone else.
fn deliver(ids: &Vec<u64>, uid: u64, username: &String, own: Notice, others: Notice) -> (out: Vec<
    (u64, TcpPacket),
>)
    requires
        ids@.no_duplicates(),
    ensures
        delivers(
            out@,
            ids@.to_set(),
            uid,
            notice_view(own, uid, username@),
            notice_view(others, uid, username@),
        ),
{
    let mut out: Vec<(u64, TcpPacket)> = Vec::new();
    let mut i: usize = 0;
    while i < ids.len()
        invariant
            i <= ids@.len(),
            out@.len() == i,
            forall|j: int|
                #![trigger out@[j]]
                0 <= j < i ==> out@[j].0 == ids@[j] && out@[j].1@ == (if ids@[j] == uid {
                    notice_view(own, uid, username@)
                } else {
                    notice_view(others, uid, username@)
                }),
        decreases ids.len() - i,
    {
        let to = ids[i];
        let packet = if to == uid {
            notice(&own, uid, username)
        } else {
            notice(&others, uid, username)
        };
        out.push((to, packet));
        i = i + 1;
    }
    proof {
        ids@.unique_seq_to_set();
        assert forall|r: u64| #[trigger] ids@.to_set().contains(r) implies exists|j: int|
            0 <= j < out@.len() && out@[j].0 == r by {
            let j = choose|j: int| 0 <= j < ids@.len() && ids@[j] == r;
            assert(out@[j].0 == r);
        }
        assert forall|a: int, b: int| 0 <= a < b < out@.len() implies #[trigger] out@[a].0
            != #[trigger] out@[b].0 by {
            assert(out@[a].0 == ids@[a]);
            assert(out@[b].0 == ids@[b]);
        }
        assert forall|j: int| 0 <= j < out@.len() implies ids@.to_set().contains(
            #[trigger] out@[j].0,
        ) by {
            assert(out@[j].0 == ids@[j]);
            assert(ids@.contains(ids@[j]));
        }
    }
    out
}

/// The streams after user `uid` asks to start one: a new stream with no
/// packet yet, unless one is running already.
pub open spec fn started(streams: Map<u64, Stream>, uid: u64) -> Map<u64, Stream> {
    if streams.contains_key(uid) {
        streams
    } else {
        streams.insert(uid, Stream { latest_packet: None })
    }
}

/// Whether `routes` lists, once each, every user other than `sender` whose
/// datagram address is known, with that address, and nobody else.
pub open spec fn routes_video(
    routes: Seq<(u64, PeerAddress)>,
    users: Map<u64, Client>,
    sender: u64,
) -> bool {
    &&& forall|i: int|
        0 <= i < routes.len() ==> users.contains_key(#[trigger] routes[i].0) && routes[i].0 != sender
            && users[routes[i].0].udp_addr == Some(routes[i].1)
    &&& forall|i: int, j: int|
        0 <= i < j < routes.len() ==> #[trigger] routes[i].0 != #[trigger] routes[j].0
    &&& forall|k: u64|
        #[trigger] users.contains_key(k) && k != sender && users[k].udp_addr is Some ==> exists|i: int|
            0 <= i < routes.len() && routes[i].0 == k
}

impl ServerState {
    /// Nobody connected, nothing streaming.
    pub fn new() -> (state: ServerState)
        ensures
            state.users@ == Map::<u64, Client>::empty(),
            state.streams@ == Map::<u64, Stream>::empty(),
    {
        ServerState { users: HashMap::new(), streams: HashMap::new() }
    }

    /// Registers a client that has just authenticated under session id
    /// `uid`, with no datagram address yet. The new client is told its id;
    /// every other client is told that it joined.
    pub fn register(&mut self, uid: u64, username: String) -> (out: Vec<(u64, TcpPacket)>)
        ensures
            final(self).users@ == old(self).users@.insert(
                uid,
                Client { username: username, session_id: uid, udp_addr: None },
            ),
            final(self).streams@ == old(self).streams@,
            delivers(
                out@,
                final(self).users@.dom(),
                uid,
                TcpPacketV::SendUID { uid },
                TcpPacketV::UserJoined { uid, username: username@ },
            ),
    {
        let name = username.clone();
        self.users.insert(uid, Client { username, session_id: uid, udp_addr: None });
        let ids = key_list(&self.users);
        deliver(&ids, uid, &name, Notice::Welcome, Notice::Joined)
    }

    /// User `uid` starts streaming. When it already streams nothing changes
    /// and nobody is told; otherwise the stream is added and every client,
    /// the streamer too, is told.
    pub fn start_stream(&mut self, uid: u64, username: &String) -> (out: Vec<(u64, TcpPacket)>)
        ensures
            final(self).users@ == old(self).users@,
            final(self).streams@ == started(old(self).streams@, uid),
            old(self).streams@.contains_key(uid) ==> out@.len() == 0,
            !old(self).streams@.contains_key(uid) ==> delivers(
                out@,
                old(self).users@.dom(),
                uid,
                TcpPacketV::StreamStarted { uid, username: username@ },
                TcpPacketV::StreamStarted { uid, username: username@ },
            ),
    {
        if self.streams.contains_key(&uid) {
            return Vec::new();
        }
        self.streams.insert(uid, Stream { latest_packet: None });
        let ids = key_list(&self.users);
        deliver(&ids, uid, username, Notice::Started, Notice::Started)
    }

    /// User `uid` stops streaming. When it does not stream nothing changes
    /// and nobody is told; otherwise the stream is removed and every
    /// client, the streamer too, is told.
    pub fn stop_stream(&mut self, uid: u64, username: &String) -> (out: Vec<(u64, TcpPacket)>)
        ensures
            final(self).users@ == old(self).users@,
            final(self).streams@ == old(self).streams@.remove(uid),
            !old(self).streams@.contains_key(uid) ==> out@.len() == 0,
            old(self).streams@.contains_key(uid) ==> delivers(
                out@,
                old(self).users@.dom(),
                uid,
                TcpPacketV::StreamStopped { uid, username: username@ },
                TcpPacketV::StreamStopped { uid, username: username@ },
            ),
    {
        if !self.streams.contains_key(&uid) {
            proof {
                assert(old(self).streams@.remove(uid) =~= old(self).streams@);
            }
            return Vec::new();
        }
        self.streams.remove(&uid);
        let ids = key_list(&self.users);
        deliver(&ids, uid, username, Notice::Stopped, Notice::Stopped)
    }

    /// User `uid` says goodbye: it and its stream are removed, and every
    /// remaining client is told that it left.
    pub fn disconnect(&mut self, uid: u64, username: &String) -> (out: Vec<(u64, TcpPacket)>)
        ensures
            final(self).users@ == old(self).users@.remove(uid),
            final(self).streams@ == old(self).streams@.remove(uid),
            delivers(
                out@,
                final(self).users@.dom(),
                uid,
                TcpPacketV::UserLeft { uid, username: username@ },
                TcpPacketV::UserLeft { uid, username: username@ },
            ),
    {
        self.users.remove(&uid);
        self.streams.remove(&uid);
        let ids = key_list(&self.users);
        deliver(&ids, uid, username, Notice::Left, Notice::Left)
    }

    /// The connection of user `uid` has ended: the user is removed (its
    /// stream, if any, is not), and every remaining client is told that it
    /// left.
    pub fn leave(&mut self, uid: u64, username: &String) -> (out: Vec<(u64, TcpPacket)>)
        ensures
            final(self).users@ == old(self).users@.remove(uid),
            final(self).streams@ == old(self).streams@,
            delivers(
                out@,
                final(self).users@.dom(),
                uid,
                TcpPacketV::UserLeft { uid, username: username@ },
                TcpPacketV::UserLeft { uid, username: username@ },
            ),
    {
        self.users.remove(&uid);
        let ids = key_list(&self.users);
        deliver(&ids, uid, username, Notice::Left, Notice::Left)
    }

    /// What the server does with one command byte from user `uid`: `0x01`
    /// starts its stream, `0x02` stops it, `0x03` disconnects it, and any
    /// other byte is ignored. The flag says whether to go on reading
    /// commands from this user: only a disconnect ends them.
    pub fn handle_command(&mut self, uid: u64, username: &String, command: u8) -> (res: (
        Vec<(u64, TcpPacket)>,
        bool,
    ))
        ensures
            res.1 == (command != 0x03),
            command == 0x01 ==> {
                &&& final(self).users@ == old(self).users@
                &&& final(self).streams@ == started(old(self).streams@, uid)
                &&& old(self).streams@.contains_key(uid) ==> res.0@.len() == 0
                &&& !old(self).streams@.contains_key(uid) ==> delivers(
                    res.0@,
                    old(self).users@.dom(),
                    uid,
                    TcpPacketV::StreamStarted { uid, username: username@ },
                    TcpPacketV::StreamStarted { uid, username: username@ },
                )
            },
            command == 0x02 ==> {
                &&& final(self).users@ == old(self).users@
                &&& final(self).streams@ == old(self).streams@.remove(uid)
                &&& !old(self).streams@.contains_key(uid) ==> res.0@.len() == 0
                &&& old(self).streams@.contains_key(uid) ==> delivers(
                    res.0@,
                    old(self).users@.dom(),
                    uid,
                    TcpPacketV::StreamStopped { uid, username: username@ },
                    TcpPacketV::StreamStopped { uid, username: username@ },
                )
            },
            command == 0x03 ==> {
                &&& final(self).users@ == old(self).users@.remove(uid)
                &&& final(self).streams@ == old(self).streams@.remove(uid)
                &&& delivers(
                    res.0@,
                    final(self).users@.dom(),
                    uid,
                    TcpPacketV::UserLeft { uid, username: username@ },
                    TcpPacketV::UserLeft { uid, username: username@ },
                )
            },
            command != 0x01 && command != 0x02 && command != 0x03 ==> {
                &&& final(self).users@ == old(self).users@
                &&& final(self).streams@ == old(self).streams@
                &&& res.0@.len() == 0
            },
    {
        if command == 0x01 {
            (self.start_stream(uid, username), true)
        } else if command == 0x02 {
            (self.stop_stream(uid, username), true)
        } else if command == 0x03 {
            (self.disconnect(uid, username), false)
        } else {
            (Vec::new(), true)
        }
    }

    /// Records the address datagrams of user `uid` come from; an unknown
    /// user is ignored.
    pub fn register_udp(&mut self, uid: u64, addr: PeerAddress)
        ensures
            final(self).streams@ == old(self).streams@,
            old(self).users@.contains_key(uid) ==> final(self).users@ == old(self).users@.insert(
                uid,
                Client {
                    username: old(self).users@[uid].username,
                    session_id: old(self).users@[uid].session_id,
                    udp_addr: Some(addr),
                },
            ),
            !old(self).users@.contains_key(uid) ==> final(self).users@ == old(self).users@,
    {
        match self.users.remove(&uid) {
            Some(client) => {
                let Client { username, session_id, udp_addr: _ } = client;
                self.users.insert(uid, Client { username, session_id, udp_addr: Some(addr) });
            },
            None => {},
        }
    }

    /// Where a video datagram from `sender` must go: nowhere when `sender`
    /// is not streaming (`None`); otherwise to every other user whose
    /// datagram address is known, once each.
    pub fn video_recipients(&self, sender: u64) -> (res: Option<Vec<(u64, PeerAddress)>>)
        ensures
            !self.streams@.contains_key(sender) ==> res is None,
            self.streams@.contains_key(sender) ==> (res matches Some(v) && routes_video(
                v@,
                self.users@,
                sender,
            )),
    {
        if !self.streams.contains_key(&sender) {
            return None;
        }
        let ids = key_list(&self.users);
        let mut out: Vec<(u64, PeerAddress)> = Vec::new();
        let ghost mut taken: Seq<int> = Seq::empty();
        let mut i: usize = 0;
        while i < ids.len()
            invariant
                i <= ids@.len(),
                ids@.no_duplicates(),
                ids@.to_set() == self.users@.dom(),
                taken.len() == out@.len(),
                forall|a: int| 0 <= a < taken.len() ==> 0 <= #[trigger] taken[a] < i,
                forall|a: int, b: int| 0 <= a < b < taken.len() ==> #[trigger] taken[a] < #[trigger] taken[b],
                forall|a: int|
                    #![trigger out@[a]]
                    0 <= a < out@.len() ==> out@[a].0 == ids@[taken[a]] && self.users@.contains_key(
                        out@[a].0,
                    ) && out@[a].0 != sender && self.users@[out@[a].0].udp_addr == Some(out@[a].1),
                forall|j: int|
                    0 <= j < i && #[trigger] ids@[j] != sender && self.users@[ids@[j]].udp_addr is Some
                        ==> exists|a: int| 0 <= a < out@.len() && out@[a].0 == ids@[j],
            decreases ids.len() - i,
        {
            let k = ids[i];
            let ghost before = out@;
            proof {
                assert(ids@.to_set().contains(ids@[i as int]));
            }
            match self.users.get(&k) {
                Some(client) => {
                    match client.udp_addr {
                        Some(addr) => {
                            if k != sender {
                                out.push((k, addr));
                                proof {
                                    taken = taken.push(i as int);
                                    assert(out@[out@.len() - 1].0 == ids@[i as int]);
                                }
                            }
                        },
                        None => {},
                    }
                },
                None => {},
            }
            proof {
                assert forall|j: int|
                    0 <= j < i + 1 && #[trigger] ids@[j] != sender && self.users@[ids@[j]].udp_addr is Some
                        implies exists|a: int| 0 <= a < out@.len() && out@[a].0 == ids@[j] by {
                    if j < i {
                        let a = choose|a: int| 0 <= a < before.len() && before[a].0 == ids@[j];
                        assert(out@[a] == before[a]);
                    } else {
                        assert(out@[out@.len() - 1].0 == ids@[j]);
                    }
                }
            }
            i = i + 1;
        }
        proof {
            assert forall|a: int, b: int| 0 <= a < b < out@.len() implies #[trigger] out@[a].0
                != #[trigger] out@[b].0 by {
                assert(taken[a] < taken[b]);
            }
            assert forall|k: u64|
                #[trigger] self.users@.contains_key(k) && k != sender && self.users@[k].udp_addr is Some
                    implies exists|a: int| 0 <= a < out@.len() && out@[a].0 == k by {
                assert(ids@.to_set().contains(k));
                let j = choose|j: int| 0 <= j < ids@.len() && ids@[j] == k;
                assert(ids@[j] != sender);
            }
        }
        Some(out)
    }

    /// Some user whose datagrams come from `addr`, if there is one.
    pub fn client_by_addr(&self, addr: PeerAddress) -> (res: Option<u64>)
        ensures
            res matches Some(k) ==> self.users@.contains_key(k) && self.users@[k].udp_addr == Some(
                addr,
            ),
            res is None ==> forall|k: u64| #[trigger]
                self.users@.contains_key(k) ==> self.users@[k].udp_addr != Some(addr),
    {
        let ids = key_list(&self.users);
        let mut i: usize = 0;
        while i < ids.len()
            invariant
                i <= ids@.len(),
                ids@.to_set() == self.users@.dom(),
                forall|j: int| 0 <= j < i ==> self.users@[#[trigger] ids@[j]].udp_addr != Some(addr),
            decreases ids.len() - i,
        {
            let k = ids[i];
            proof {
                assert(ids@.to_set().contains(ids@[i as int]));
            }
            match self.users.get(&k) {
                Some(client) => {
                    match client.udp_addr {
                        Some(a) => {
                            if a == addr {
                                return Some(k);
                            }
                        },
                        None => {},
                    }
                },
                None => {},
            }
            i = i + 1;
        }
        proof {
            assert forall|k: u64| #[trigger] self.users@.contains_key(k) implies self.users@[k].udp_addr
                != Some(addr) by {
                assert(ids@.to_set().contains(k));
                let j = choose|j: int| 0 <= j < ids@.len() && ids@[j] == k;
                assert(self.users@[ids@[j]].udp_addr != Some(addr));
            }
        }
        None
    }
}

/// `rand::random::<u64>()`: a value from the thread-local random generator.
/// Nothing is claimed of it.
#[verifier::external_body]
fn random_u64() -> u64 {
    rand::random::<u64>()
}

/// The id `steps` places after `start`, counting on from `u64::MAX` back to
/// zero.
pub open spec fn wrapped(start: u64, steps: int) -> u64 {
    if start + steps <= u64::MAX {
        (start + steps) as u64
    } else {
        (start + steps - 0x1_0000_0000_0000_0000int) as u64
    }
}

/// A session id that no connected user has: a random one or, when that one
/// is taken, the first free id after it.
pub fn generate_session_id(state: &ServerState) -> (id: u64)
    ensures
        !state.users@.contains_key(id),
{
    let count = state.users.len();
    let start = random_u64();
    let mut id = start;
    let ghost mut tried: Set<u64> = Set::empty();
    let ghost mut n: int = 0;
    while state.users.contains_key(&id)
        invariant
            state.users@.dom().finite(),
            state.users@.dom().len() == count,
            0 <= n <= count,
            tried.finite(),
            tried.len() == n,
            tried.subset_of(state.users@.dom()),
            forall|x: u64| #[trigger] tried.contains(x) ==> exists|j: int| 0 <= j < n && x == wrapped(start, j),
            id == wrapped(start, n),
        decreases count - n,
    {
        proof {
            if tried.contains(id) {
                let j = choose|j: int| 0 <= j < n && id == wrapped(start, j);
                assert(false);
            }
            vstd::set_lib::lemma_len_subset(tried.insert(id), state.users@.dom());
            tried = tried.insert(id);
            n = n + 1;
        }
        id = id.wrapping_add(1);
    }
    id
}

/// Starting a stream and then stopping it leaves the streams as they were,
/// for a user that was not streaming.
pub proof fn start_then_stop(streams: Map<u64, Stream>, uid: u64)
    requires
        !streams.contains_key(uid),
    ensures
        started(streams, uid).remove(uid) == streams,
{
    assert(started(streams, uid).remove(uid) =~= streams);
}

/// Registering a user under a new id and then losing its connection leaves
/// the users as they were.
pub proof fn register_then_leave(users: Map<u64, Client>, uid: u64, client: Client)
    requires
        !users.contains_key(uid),
    ensures
        users.insert(uid, client).remove(uid) == users,
{
    assert(users.insert(uid, client).remove(uid) =~= users);
}

/// Whether every user is stored under its own session id.
pub open spec fn ids_match(users: Map<u64, Client>) -> bool {
    forall|k: u64| #[trigger] users.contains_key(k) ==> users[k].session_id == k
}

/// Whether every running stream belongs to a connected user.
pub open spec fn streams_owned(users: Map<u64, Client>, streams: Map<u64, Stream>) -> bool {
    forall|k: u64| #[trigger] streams.contains_key(k) ==> users.contains_key(k)
}

/// Registering a user, removing one and recording a user's datagram
/// address (the changes [`ServerState::register`], [`ServerState::disconnect`],
/// [`ServerState::leave`] and [`ServerState::register_udp`] make) keep every
/// user under its own session id.
pub proof fn session_ids_stay_matched(
    users: Map<u64, Client>,
    uid: u64,
    username: String,
    addr: PeerAddress,
)
    requires
        ids_match(users),
    ensures
        ids_match(users.insert(uid, Client { username: username, session_id: uid, udp_addr: None })),
        ids_match(users.remove(uid)),
        users.contains_key(uid) ==> ids_match(
            users.insert(
                uid,
                Client {
                    username: users[uid].username,
                    session_id: users[uid].session_id,
                    udp_addr: Some(addr),
                },
            ),
        ),
{
}

/// Registering a user, starting a stream for a connected user, stopping a
/// stream and disconnecting a user with its stream (the changes
/// [`ServerState::register`], [`ServerState::start_stream`],
/// [`ServerState::stop_stream`] and [`ServerState::disconnect`] make) keep
/// every stream owned by a connected user.
pub proof fn streams_stay_owned(
    users: Map<u64, Client>,
    streams: Map<u64, Stream>,
    uid: u64,
    client: Client,
)
    requires
        streams_owned(users, streams),
    ensures
        streams_owned(users.insert(uid, client), streams),
        users.contains_key(uid) ==> streams_owned(users, started(streams, uid)),
        streams_owned(users, streams.remove(uid)),
        streams_owned(users.remove(uid), streams.remove(uid)),
{
}

} // verus!
