//! What the client's window shows: who is connected, who is streaming,
//! which stream is selected and its latest frame.
pub mod state;
pub mod event;
pub mod gui;
pub mod model;
