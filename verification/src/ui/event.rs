//! Events of the earlier interface.
use vstd::prelude::*;

verus! {

/// Something the interface must react to, about the user or stream `uid`.
#[derive(Debug, Clone, Copy, PartialEq, Eq, Structural)]
pub enum AppEvent {
    NewFrame(u64),
    StreamStarted(u64),
    StreamStopped(u64),
    UserJoined(u64),
    UserLeft(u64),
}

} // verus!
