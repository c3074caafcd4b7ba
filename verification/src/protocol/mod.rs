//! Wire formats exchanged between the StreamShare client and server.
pub mod wire;
pub mod packet_id;
pub mod command;
pub mod tcp;
pub mod video;
pub mod udp;
