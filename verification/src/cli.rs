//! The command line: run as a client or as a server, each with the path of
//! its configuration file.
use vstd::prelude::*;

verus! {

/// The parsed command line.
pub struct Args {
    pub command: Commands,
}

/// What to run.
pub enum Commands {
    /// Start the client.
    Client { config_path: String },
    /// Start the server.
    Server { config_path: String },
}

} // verus!
