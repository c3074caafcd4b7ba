//! Video frames on their way between the encoder, the network and the
//! decoder.
pub mod frame;
pub mod encoder;
pub mod annexb;
pub mod reassembler;
pub mod h264;
pub mod state;
pub mod ffmpeg;
pub mod letterbox;
