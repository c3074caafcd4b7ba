//! Decoded frames.
use vstd::prelude::*;

verus! {

/// One complete video frame of a user.
#[derive(Clone, Default)]
pub struct VideoFrame {
    pub uid: u64,
    pub width: usize,
    pub height: usize,
    pub data: Vec<u8>,
}

/// One raw BGRA frame coming out of a decoder or going into an encoder.
#[derive(Clone)]
pub struct RawFrame {
    pub sequence: u64,
    pub timestamp: u64,
    pub width: usize,
    pub height: usize,
    pub data: Vec<u8>,
}

} // verus!
