//! Whether this client is broadcasting its screen.
use vstd::prelude::*;

verus! {

/// The broadcasting flag that the capture loop reads and the control task
/// sets.
pub struct Media {
    streaming: bool,
}

impl View for Media {
    type V = bool;

    closed spec fn view(&self) -> bool {
        self.streaming
    }
}

impl Media {
    /// Not broadcasting.
    pub fn new() -> (media: Self)
        ensures
            !media@,
    {
        Media { streaming: false }
    }

    /// Starts broadcasting.
    pub fn start_streaming(&mut self)
        ensures
            final(self)@,
    {
        self.streaming = true;
    }

    /// Stops broadcasting.
    pub fn stop_streaming(&mut self)
        ensures
            !final(self)@,
    {
        self.streaming = false;
    }

    /// Whether the client is broadcasting.
    pub fn is_streaming(&self) -> (streaming: bool)
        ensures
            streaming == self@,
    {
        self.streaming
    }
}

} // verus!
