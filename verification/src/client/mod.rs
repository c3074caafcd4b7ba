//! The client side: its configuration, the commands its interface gives and
//! the events it shows, and the state its tasks share.
pub mod endpoint;
pub mod state;
pub mod config;
pub mod command;
pub mod session;
