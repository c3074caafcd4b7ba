//! Video fragments carried in QUIC datagrams.
use vstd::prelude::*;
use super::wire::{
    be_u16, be_u32, be_u64, put_bytes, put_u16, put_u32, put_u64, u16_be, u32_be, u64_be,
    lemma_u16_roundtrip, lemma_u32_roundtrip, lemma_u64_roundtrip,
};

verus! {

/// The codec of an encoded payload.
#[derive(Clone, Copy, Debug, PartialEq, Eq, Structural)]
pub enum VideoCodec {
    H264,
}

/// The wire byte of a codec.
pub open spec fn codec_byte(c: VideoCodec) -> u8 {
    match c {
        VideoCodec::H264 => 1,
    }
}

/// The codec a wire byte names.
pub open spec fn codec_of(b: u8) -> Option<VideoCodec> {
    if b == 1 {
        Some(VideoCodec::H264)
    } else {
        None
    }
}

impl VideoCodec {
    /// The wire byte of the codec.
    pub fn as_u8(self) -> (b: u8)
        ensures
            b == codec_byte(self),
    {
        match self {
            VideoCodec::H264 => 1,
        }
    }

    /// The codec a wire byte names, if any.
    pub fn from_u8(value: u8) -> (c: Option<VideoCodec>)
        ensures
            c == codec_of(value),
    {
        if value == 1 {
            Some(VideoCodec::H264)
        } else {
            None
        }
    }
}

/// The size of the fixed header in front of a fragment's payload.
pub const HEADER_SIZE: usize = 38;

/// One fragment of an encoded frame.
#[derive(Clone, Debug)]
pub struct VideoPacket {
    /// UID of the user who owns the stream.
    pub uid: u64,
    /// Identifies the complete encoded frame.
    pub frame_id: u64,
    /// Presentation timestamp.
    pub timestamp: u64,
    /// Fragment index within the frame.
    pub packet_index: u16,
    /// Number of fragments of the frame.
    pub packet_total: u16,
    /// Whether the frame is a keyframe.
    pub keyframe: bool,
    /// Codec of the payload.
    pub codec: VideoCodec,
    /// Dimensions of the captured video.
    pub width: u32,
    pub height: u32,
    /// The fragment's share of the encoded bitstream.
    pub data: Vec<u8>,
}

/// The mathematical content of a [`VideoPacket`].
pub struct VideoPacketV {
    pub uid: u64,
    pub frame_id: u64,
    pub timestamp: u64,
    pub packet_index: u16,
    pub packet_total: u16,
    pub keyframe: bool,
    pub codec: VideoCodec,
    pub width: u32,
    pub height: u32,
    pub data: Seq<u8>,
}

impl View for VideoPacket {
    type V = VideoPacketV;

    open spec fn view(&self) -> VideoPacketV {
        VideoPacketV {
            uid: self.uid,
            frame_id: self.frame_id,
            timestamp: self.timestamp,
            packet_index: self.packet_index,
            packet_total: self.packet_total,
            keyframe: self.keyframe,
            codec: self.codec,
            width: self.width,
            height: self.height,
            data: self.data@,
        }
    }
}

/// The bytes of a fragment: the header fields in declaration order, big
/// endian, the keyframe flag as 0 or 1, then the payload.
pub open spec fn video_wire(p: VideoPacketV) -> Seq<u8> {
    u64_be(p.uid) + u64_be(p.frame_id) + u64_be(p.timestamp) + u16_be(p.packet_index) + u16_be(
        p.packet_total,
    ) + seq![if p.keyframe { 1u8 } else { 0u8 }] + seq![codec_byte(p.codec)] + u32_be(p.width)
        + u32_be(p.height) + p.data
}

/// Whether a fragment's index lies within its frame.
pub open spec fn fragment_in_range(p: VideoPacketV) -> bool {
    p.packet_total > 0 && p.packet_index < p.packet_total
}

/// What a datagram reads as: the header, then everything after it as the
/// payload. A flag byte other than 0 or 1, an unknown codec, a total of
/// zero or an index not below the total make it no fragment.
pub open spec fn video_parse(buf: Seq<u8>) -> Option<VideoPacketV> {
    if buf.len() < HEADER_SIZE {
        None
    } else if buf[28] != 0 && buf[28] != 1 {
        None
    } else if codec_of(buf[29]) is None {
        None
    } else {
        let p = VideoPacketV {
            uid: be_u64(buf.subrange(0, 8)),
            frame_id: be_u64(buf.subrange(8, 16)),
            timestamp: be_u64(buf.subrange(16, 24)),
            packet_index: be_u16(buf.subrange(24, 26)),
            packet_total: be_u16(buf.subrange(26, 28)),
            keyframe: buf[28] == 1,
            codec: codec_of(buf[29]).unwrap(),
            width: be_u32(buf.subrange(30, 34)),
            height: be_u32(buf.subrange(34, 38)),
            data: buf.skip(HEADER_SIZE as int),
        };
        if fragment_in_range(p) {
            Some(p)
        } else {
            None
        }
    }
}

fn be_u64_at(buf: &[u8], at: usize) -> (v: u64)
    requires
        at + 8 <= buf@.len(),
    ensures
        v == be_u64(buf@.subrange(at as int, at + 8)),
{
    ((buf[at] as u64) << 56u64) | ((buf[at + 1] as u64) << 48u64) | ((buf[at + 2] as u64) << 40u64)
        | ((buf[at + 3] as u64) << 32u64) | ((buf[at + 4] as u64) << 24u64) | ((buf[at + 5] as u64)
        << 16u64) | ((buf[at + 6] as u64) << 8u64) | (buf[at + 7] as u64)
}

fn be_u32_at(buf: &[u8], at: usize) -> (v: u32)
    requires
        at + 4 <= buf@.len(),
    ensures
        v == be_u32(buf@.subrange(at as int, at + 4)),
{
    ((buf[at] as u32) << 24u32) | ((buf[at + 1] as u32) << 16u32) | ((buf[at + 2] as u32) << 8u32)
        | (buf[at + 3] as u32)
}

fn be_u16_at(buf: &[u8], at: usize) -> (v: u16)
    requires
        at + 2 <= buf@.len(),
    ensures
        v == be_u16(buf@.subrange(at as int, at + 2)),
{
    ((buf[at] as u16) << 8u16) | (buf[at + 1] as u16)
}

impl VideoPacket {
    /// The fragment's bytes.
    pub fn encode(&self) -> (out: Vec<u8>)
        ensures
            out@ == video_wire(self@),
    {
        let mut out: Vec<u8> = Vec::new();
        put_u64(&mut out, self.uid);
        put_u64(&mut out, self.frame_id);
        put_u64(&mut out, self.timestamp);
        put_u16(&mut out, self.packet_index);
        put_u16(&mut out, self.packet_total);
        out.push(if self.keyframe { 1u8 } else { 0u8 });
        out.push(self.codec.as_u8());
        put_u32(&mut out, self.width);
        put_u32(&mut out, self.height);
        put_bytes(&mut out, self.data.as_slice());
        assert(out@ =~= video_wire(self@));
        out
    }

    /// The fragment a datagram holds, as [`video_parse`] reads it.
    pub fn decode(buf: &[u8]) -> (res: Option<VideoPacket>)
        ensures
            match video_parse(buf@) {
                None => res is None,
                Some(v) => res matches Some(p) && p@ == v,
            },
    {
        if buf.len() < HEADER_SIZE {
            return None;
        }
        let uid = be_u64_at(buf, 0);
        let frame_id = be_u64_at(buf, 8);
        let timestamp = be_u64_at(buf, 16);
        let packet_index = be_u16_at(buf, 24);
        let packet_total = be_u16_at(buf, 26);
        let keyframe = if buf[28] == 0 {
            false
        } else if buf[28] == 1 {
            true
        } else {
            return None;
        };
        let codec = match VideoCodec::from_u8(buf[29]) {
            Some(c) => c,
            None => return None,
        };
        let width = be_u32_at(buf, 30);
        let height = be_u32_at(buf, 34);
        if packet_total == 0 {
            return None;
        }
        if packet_index >= packet_total {
            return None;
        }
        let data = vstd::slice::slice_to_vec(&buf[HEADER_SIZE..buf.len()]);
        assert(data@ =~= buf@.skip(HEADER_SIZE as int));
        Some(
            VideoPacket {
                uid,
                frame_id,
                timestamp,
                packet_index,
                packet_total,
                keyframe,
                codec,
                width,
                height,
                data,
            },
        )
    }
}

/// A fragment reads back as itself once written exactly when its index lies
/// within its frame; otherwise it reads as nothing.
pub proof fn video_packet_roundtrip(p: VideoPacketV)
    ensures
        video_parse(video_wire(p)) == (if fragment_in_range(p) {
            Some(p)
        } else {
            None
        }),
{
    let b = video_wire(p);
    assert(b.subrange(0, 8) =~= u64_be(p.uid));
    assert(b.subrange(8, 16) =~= u64_be(p.frame_id));
    assert(b.subrange(16, 24) =~= u64_be(p.timestamp));
    assert(b.subrange(24, 26) =~= u16_be(p.packet_index));
    assert(b.subrange(26, 28) =~= u16_be(p.packet_total));
    assert(b[28] == (if p.keyframe { 1u8 } else { 0u8 }));
    assert(b[29] == codec_byte(p.codec));
    assert(b.subrange(30, 34) =~= u32_be(p.width));
    assert(b.subrange(34, 38) =~= u32_be(p.height));
    assert(b.skip(38) =~= p.data);
    lemma_u64_roundtrip(p.uid);
    lemma_u64_roundtrip(p.frame_id);
    lemma_u64_roundtrip(p.timestamp);
    lemma_u16_roundtrip(p.packet_index);
    lemma_u16_roundtrip(p.packet_total);
    lemma_u32_roundtrip(p.width);
    lemma_u32_roundtrip(p.height);
}

} // verus!
