//! The first byte of every control packet.
use vstd::prelude::*;

verus! {

pub const SERVER_AUTH_ACCEPTED: u8 = 0x01;
pub const SERVER_AUTH_DENIED: u8 = 0x02;
pub const SERVER_USER_JOINED: u8 = 0x04;
pub const SERVER_USER_LEFT: u8 = 0x05;
pub const SERVER_STREAM_STARTED: u8 = 0x06;
pub const SERVER_STREAM_STOPPED: u8 = 0x07;
pub const SERVER_ERROR: u8 = 0x08;
pub const SERVER_INITIAL_STATE: u8 = 0x09;

pub const CLIENT_AUTHENTICATE: u8 = 0x10;
pub const CLIENT_STREAM_START: u8 = 0x11;
pub const CLIENT_STREAM_STOP: u8 = 0x12;
pub const CLIENT_WATCH_STREAM: u8 = 0x13;
pub const CLIENT_LEAVE_STREAM: u8 = 0x14;
pub const CLIENT_DISCONNECT: u8 = 0x15;

} // verus!
