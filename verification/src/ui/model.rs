//! The state the client's window keeps, and how each event from the network
//! task changes it.
use std::collections::HashMap;
use vstd::prelude::*;
use crate::client::command::{ClientCommand, ClientEvent};
use crate::media::frame::RawFrame;
use crate::protocol::command::{StreamInfo, UserInfo};
use crate::text::{decimal, decimal_string};

verus! {

broadcast use vstd::std_specs::hash::group_hash_axioms;

/// What the window knows: users and streams by id, the selected stream, the
/// latest frame to draw, and whether the interface must be drawn again.
pub struct AppModel {
    pub users: HashMap<u64, String>,
    pub streams: HashMap<u64, String>,
    pub selected_stream: Option<u64>,
    pub latest_frame: Option<RawFrame>,
    pub ui_dirty: bool,
}

/// A map of names once the users of `us` are added in order, a later entry
/// for the same id replacing an earlier one.
pub open spec fn with_users(m: Map<u64, String>, us: Seq<UserInfo>) -> Map<u64, String>
    decreases us.len(),
{
    if us.len() == 0 {
        m
    } else {
        with_users(m, us.drop_last()).insert(us.last().uid, us.last().username)
    }
}

/// A map of names once the streams of `ss` are added in order, a later entry
/// for the same id replacing an earlier one.
pub open spec fn with_streams(m: Map<u64, String>, ss: Seq<StreamInfo>) -> Map<u64, String>
    decreases ss.len(),
{
    if ss.len() == 0 {
        m
    } else {
        with_streams(m, ss.drop_last()).insert(ss.last().uid, ss.last().username)
    }
}

/// The selected stream once stream `uid` is gone.
pub open spec fn unselect(selected: Option<u64>, uid: u64) -> Option<u64> {
    if selected == Some(uid) {
        None
    } else {
        selected
    }
}

impl AppModel {
    /// Nobody known, nothing selected or drawn yet, and the interface to be
    /// drawn.
    pub fn new() -> (model: AppModel)
        ensures
            model.users@ == Map::<u64, String>::empty(),
            model.streams@ == Map::<u64, String>::empty(),
            model.selected_stream is None,
            model.latest_frame is None,
            model.ui_dirty,
    {
        AppModel {
            users: HashMap::new(),
            streams: HashMap::new(),
            selected_stream: None,
            latest_frame: None,
            ui_dirty: true,
        }
    }

    /// Takes in an event from the network task. A user who joins is listed
    /// and one who leaves is unlisted with any stream of theirs; a stream
    /// that starts is listed and one that stops is unlisted. Whenever a user
    /// or stream goes, the frame on screen is dropped and the stream is
    /// unselected if it was selected. The initial state adds every user and
    /// stream it names. Every event has the interface drawn again.
    pub fn handle_client_event(&mut self, event: ClientEvent)
        ensures
            final(self).ui_dirty,
            match event {
                ClientEvent::UserJoined { uid, username } => {
                    &&& final(self).users@ == old(self).users@.insert(uid, username)
                    &&& final(self).streams@ == old(self).streams@
                    &&& final(self).selected_stream == old(self).selected_stream
                    &&& final(self).latest_frame == old(self).latest_frame
                },
                ClientEvent::UserLeft { uid, username: _ } => {
                    &&& final(self).users@ == old(self).users@.remove(uid)
                    &&& final(self).streams@ == old(self).streams@.remove(uid)
                    &&& final(self).selected_stream == unselect(old(self).selected_stream, uid)
                    &&& final(self).latest_frame is None
                },
                ClientEvent::StreamStarted { uid, username } => {
                    &&& final(self).users@ == old(self).users@
                    &&& final(self).streams@ == old(self).streams@.insert(uid, username)
                    &&& final(self).selected_stream == old(self).selected_stream
                    &&& final(self).latest_frame == old(self).latest_frame
                },
                ClientEvent::StreamStopped { uid, username: _ } => {
                    &&& final(self).users@ == old(self).users@
                    &&& final(self).streams@ == old(self).streams@.remove(uid)
                    &&& final(self).selected_stream == unselect(old(self).selected_stream, uid)
                    &&& final(self).latest_frame is None
                },
                ClientEvent::InitialState { users, streams } => {
                    &&& final(self).users@ == with_users(old(self).users@, users@)
                    &&& final(self).streams@ == with_streams(old(self).streams@, streams@)
                    &&& final(self).selected_stream == old(self).selected_stream
                    &&& final(self).latest_frame == old(self).latest_frame
                },
                _ => {
                    &&& final(self).users@ == old(self).users@
                    &&& final(self).streams@ == old(self).streams@
                    &&& final(self).selected_stream == old(self).selected_stream
                    &&& final(self).latest_frame == old(self).latest_frame
                },
            },
    {
        match event {
            ClientEvent::UserJoined { uid, username } => {
                self.users.insert(uid, username);
            },
            ClientEvent::UserLeft { uid, username: _ } => {
                self.users.remove(&uid);
                self.streams.remove(&uid);
                self.latest_frame = None;
                if self.selected_stream == Some(uid) {
                    self.selected_stream = None;
                }
            },
            ClientEvent::StreamStarted { uid, username } => {
                self.streams.insert(uid, username);
            },
            ClientEvent::StreamStopped { uid, username: _ } => {
                self.streams.remove(&uid);
                self.latest_frame = None;
                if self.selected_stream == Some(uid) {
                    self.selected_stream = None;
                }
            },
            ClientEvent::InitialState { users, streams } => {
                let mut i: usize = 0;
                proof {
                    assert(users@.take(0) =~= Seq::<UserInfo>::empty());
                }
                while i < users.len()
                    invariant
                        i <= users@.len(),
                        self.users@ == with_users(old(self).users@, users@.take(i as int)),
                        self.streams@ == old(self).streams@,
                        self.selected_stream == old(self).selected_stream,
                        self.latest_frame == old(self).latest_frame,
                    decreases users.len() - i,
                {
                    let user = &users[i];
                    self.users.insert(user.uid, user.username.clone());
                    proof {
                        assert(users@.take(i + 1).drop_last() =~= users@.take(i as int));
                    }
                    i = i + 1;
                }
                proof {
                    assert(users@.take(users@.len() as int) =~= users@);
                    assert(streams@.take(0) =~= Seq::<StreamInfo>::empty());
                }
                let mut j: usize = 0;
                while j < streams.len()
                    invariant
                        j <= streams@.len(),
                        self.streams@ == with_streams(old(self).streams@, streams@.take(j as int)),
                        self.users@ == with_users(old(self).users@, users@),
                        self.selected_stream == old(self).selected_stream,
                        self.latest_frame == old(self).latest_frame,
                    decreases streams.len() - j,
                {
                    let stream = &streams[j];
                    self.streams.insert(stream.uid, stream.username.clone());
                    proof {
                        assert(streams@.take(j + 1).drop_last() =~= streams@.take(j as int));
                    }
                    j = j + 1;
                }
                proof {
                    assert(streams@.take(streams@.len() as int) =~= streams@);
                }
            },
            _ => {},
        }
        self.ui_dirty = true;
    }

    /// Selects stream `uid` to watch, and gives the command that asks the
    /// server for it.
    pub fn request_watch_stream(&mut self, uid: u64) -> (command: ClientCommand)
        ensures
            final(self).selected_stream == Some(uid),
            final(self).ui_dirty,
            final(self).users@ == old(self).users@,
            final(self).streams@ == old(self).streams@,
            final(self).latest_frame == old(self).latest_frame,
            command == (ClientCommand::WatchStream { uid }),
    {
        self.selected_stream = Some(uid);
        self.ui_dirty = true;
        ClientCommand::WatchStream { uid }
    }
}

/// The label of the button that watches stream `uid` of `username`:
/// `Watching <name>` for the selected stream, `Watch <name>` for the others.
pub open spec fn watch_label_text(selected: Option<u64>, uid: u64, username: Seq<char>) -> Seq<char> {
    if selected == Some(uid) {
        "Watching "@ + username
    } else {
        "Watch "@ + username
    }
}

/// A line of the user and stream lists: `<uid>: <name>`.
pub open spec fn entry_line_text(uid: u64, username: Seq<char>) -> Seq<char> {
    decimal(uid as nat) + ": "@ + username
}

impl AppModel {
    /// The label of the button that watches stream `uid` of `username`.
    pub fn watch_label(&self, uid: u64, username: &String) -> (label: String)
        ensures
            label@ == watch_label_text(self.selected_stream, uid, username@),
    {
        let selected = match self.selected_stream {
            Some(s) => s == uid,
            None => false,
        };
        let mut label = if selected {
            String::from_str("Watching ")
        } else {
            String::from_str("Watch ")
        };
        label.append(username.as_str());
        label
    }
}

/// A line of the user and stream lists.
pub fn entry_line(uid: u64, username: &String) -> (line: String)
    ensures
        line@ == entry_line_text(uid, username@),
{
    let mut line = decimal_string(uid);
    line.append(": ");
    line.append(username.as_str());
    line
}

} // verus!
