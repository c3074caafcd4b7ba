//! The state that the client's tasks share: its session id, whether it
//! broadcasts, the next frame number, and the command waiting for the
//! network task.
use vstd::prelude::*;

verus! {

/// A command waiting for the network task.
#[derive(Debug, Clone, Copy, PartialEq, Eq, Structural)]
pub enum ClientCommand {
    Nothing,
    StartStream,
    StopStream,
    Disconnect,
}

/// The waiting command once `c` is set in place of `slot`.
pub open spec fn slot_after_set(slot: ClientCommand, c: ClientCommand) -> ClientCommand {
    c
}

/// What taking the waiting command from `slot` gives, and what waits after.
pub open spec fn take_from(slot: ClientCommand) -> (ClientCommand, ClientCommand) {
    (slot, ClientCommand::Nothing)
}

/// What the client's tasks share.
pub struct ClientState {
    pub uid: u64,
    pub streaming: bool,
    pub sequence: u64,
    pub command: ClientCommand,
}

impl ClientState {
    /// No session id yet, not broadcasting, frames counted from zero and no
    /// command waiting.
    pub fn new() -> (state: ClientState)
        ensures
            state.uid == 0,
            !state.streaming,
            state.sequence == 0,
            state.command == ClientCommand::Nothing,
    {
        ClientState { uid: 0, streaming: false, sequence: 0, command: ClientCommand::Nothing }
    }

    /// Leaves `command` waiting, in place of any command that was waiting.
    pub fn set_command(&mut self, command: ClientCommand)
        ensures
            final(self).command == slot_after_set(old(self).command, command),
            final(self).uid == old(self).uid,
            final(self).streaming == old(self).streaming,
            final(self).sequence == old(self).sequence,
    {
        self.command = command;
    }

    /// Takes the waiting command, leaving `Nothing` in its place.
    pub fn take_command(&mut self) -> (command: ClientCommand)
        ensures
            (command, final(self).command) == take_from(old(self).command),
            final(self).uid == old(self).uid,
            final(self).streaming == old(self).streaming,
            final(self).sequence == old(self).sequence,
    {
        let command = self.command;
        self.command = ClientCommand::Nothing;
        command
    }
}

/// A command that was set is the one taken next, and it is taken once:
/// taking again gives `Nothing`.
pub proof fn set_then_take(slot: ClientCommand, c: ClientCommand)
    ensures
        take_from(slot_after_set(slot, c)).0 == c,
        take_from(take_from(slot_after_set(slot, c)).1).0 == ClientCommand::Nothing,
{
}

impl ClientState {
    /// What the control task does with the waiting command, which it takes:
    /// starting a stream sends `0x01` and marks the client as broadcasting,
    /// stopping sends `0x02` and clears the mark, disconnecting sends `0x03`
    /// and ends the task; with no command nothing is sent. The flag says
    /// whether the task goes on.
    pub fn send_step(&mut self) -> (step: (Option<u8>, bool))
        ensures
            final(self).command == ClientCommand::Nothing,
            final(self).uid == old(self).uid,
            final(self).sequence == old(self).sequence,
            step == match old(self).command {
                ClientCommand::StartStream => (Some(0x01u8), true),
                ClientCommand::StopStream => (Some(0x02u8), true),
                ClientCommand::Disconnect => (Some(0x03u8), false),
                ClientCommand::Nothing => (None, true),
            },
            final(self).streaming == match old(self).command {
                ClientCommand::StartStream => true,
                ClientCommand::StopStream => false,
                _ => old(self).streaming,
            },
    {
        let command = self.take_command();
        match command {
            ClientCommand::StartStream => {
                self.streaming = true;
                (Some(0x01), true)
            },
            ClientCommand::StopStream => {
                self.streaming = false;
                (Some(0x02), true)
            },
            ClientCommand::Disconnect => (Some(0x03), false),
            ClientCommand::Nothing => (None, true),
        }
    }
}

} // verus!
