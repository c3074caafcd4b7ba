//! The server side: its configuration, who is connected and streaming, and
//! the rules by which it answers and routes.
pub mod auth;
pub mod endpoint;
pub mod state;
pub mod login;
pub mod config;
