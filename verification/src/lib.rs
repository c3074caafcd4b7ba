//! StreamShare: the protocol, media bookkeeping and session rules of a
//! screen-sharing client and server, with their contracts.
pub mod protocol;
pub mod media;
pub mod network;
pub mod client;
pub mod server;
pub mod text;
pub mod ui;
pub mod cli;
