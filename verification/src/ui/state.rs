//! The streams the interface can offer, and the notices it shows.
use std::collections::{HashMap, VecDeque};
use vstd::prelude::*;
use crate::protocol::tcp::TcpPacket;
use crate::ui::event::AppEvent;

verus! {

broadcast use vstd::std_specs::hash::group_hash_axioms;

/// The interface's view of streams and notices.
pub struct AppState {
    pub selected_stream: Option<u64>,
    pub available_streams: HashMap<u64, StreamInfo>,
    pub notifications: VecDeque<String>,
}

/// A stream the interface can offer.
pub struct StreamInfo {
    pub uid: u64,
    pub username: String,
    pub resolution: (u32, u32),
    pub fps: u32,
}

impl AppState {
    /// Nothing selected, no stream known, no notice.
    pub fn new() -> (state: AppState)
        ensures
            state.selected_stream is None,
            state.available_streams@ == Map::<u64, StreamInfo>::empty(),
            state.notifications@ == Seq::<String>::empty(),
    {
        AppState {
            selected_stream: None,
            available_streams: HashMap::new(),
            notifications: VecDeque::new(),
        }
    }
}

/// The resolution shown for a stream announced on the TCP channel.
pub open spec fn announced_resolution() -> (u32, u32) {
    (1980u32, 1020u32)
}

impl AppState {
    /// Takes in a packet of the TCP control channel: a join, a leave, a
    /// stream start or a stream stop is noted (`<name> joined`, `<name>
    /// left`, `<name> started streaming`, `<name> stopped streaming`), a
    /// started stream is offered (at 1980 by 1020 and 60 frames a second) and
    /// a stopped one withdrawn, and the event for the window is returned.
    /// Other packets change nothing.
    pub fn apply_tcp_packet(&mut self, packet: TcpPacket) -> (event: Option<AppEvent>)
        ensures
            final(self).selected_stream == old(self).selected_stream,
            match packet {
                TcpPacket::UserJoined { uid, username } => {
                    &&& event == Some(AppEvent::UserJoined(uid))
                    &&& final(self).notifications@.len() == old(self).notifications@.len() + 1
                    &&& final(self).notifications@.drop_last() == old(self).notifications@
                    &&& final(self).notifications@.last()@ == username@ + " joined"@
                    &&& final(self).available_streams@ == old(self).available_streams@
                },
                TcpPacket::UserLeft { uid, username } => {
                    &&& event == Some(AppEvent::UserLeft(uid))
                    &&& final(self).notifications@.len() == old(self).notifications@.len() + 1
                    &&& final(self).notifications@.drop_last() == old(self).notifications@
                    &&& final(self).notifications@.last()@ == username@ + " left"@
                    &&& final(self).available_streams@ == old(self).available_streams@
                },
                TcpPacket::StreamStarted { uid, username } => {
                    &&& event == Some(AppEvent::StreamStarted(uid))
                    &&& final(self).notifications@.len() == old(self).notifications@.len() + 1
                    &&& final(self).notifications@.drop_last() == old(self).notifications@
                    &&& final(self).notifications@.last()@ == username@ + " started streaming"@
                    &&& final(self).available_streams@.dom() == old(
                        self,
                    ).available_streams@.dom().insert(uid)
                    &&& forall|k: u64|
                        k != uid && #[trigger] old(self).available_streams@.contains_key(k)
                            ==> final(self).available_streams@[k] == old(
                            self,
                        ).available_streams@[k]
                    &&& final(self).available_streams@[uid].uid == uid
                    &&& final(self).available_streams@[uid].username@ == username@
                    &&& final(self).available_streams@[uid].resolution == announced_resolution()
                    &&& final(self).available_streams@[uid].fps == 60
                },
                TcpPacket::StreamStopped { uid, username } => {
                    &&& event == Some(AppEvent::StreamStopped(uid))
                    &&& final(self).notifications@.len() == old(self).notifications@.len() + 1
                    &&& final(self).notifications@.drop_last() == old(self).notifications@
                    &&& final(self).notifications@.last()@ == username@ + " stopped streaming"@
                    &&& final(self).available_streams@ == old(self).available_streams@.remove(uid)
                },
                _ => {
                    &&& event is None
                    &&& final(self).notifications@ == old(self).notifications@
                    &&& final(self).available_streams@ == old(self).available_streams@
                },
            },
    {
        match packet {
            TcpPacket::UserJoined { uid, username } => {
                let mut note = username.clone();
                note.append(" joined");
                self.notifications.push_back(note);
                Some(AppEvent::UserJoined(uid))
            },
            TcpPacket::UserLeft { uid, username } => {
                let mut note = username.clone();
                note.append(" left");
                self.notifications.push_back(note);
                Some(AppEvent::UserLeft(uid))
            },
            TcpPacket::StreamStarted { uid, username } => {
                let mut note = username.clone();
                note.append(" started streaming");
                self.notifications.push_back(note);
                self.available_streams.insert(
                    uid,
                    StreamInfo { uid, username, resolution: (1980, 1020), fps: 60 },
                );
                Some(AppEvent::StreamStarted(uid))
            },
            TcpPacket::StreamStopped { uid, username } => {
                let mut note = username.clone();
                note.append(" stopped streaming");
                self.notifications.push_back(note);
                self.available_streams.remove(&uid);
                Some(AppEvent::StreamStopped(uid))
            },
            _ => None,
        }
    }
}

} // verus!
