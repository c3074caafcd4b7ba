//! Encoded frames and their division into datagram-sized fragments.
use vstd::prelude::*;
use crate::protocol::video::{VideoCodec, VideoPacket, VideoPacketV};

verus! {

/// The largest payload of one video fragment.
pub const MAX_VIDEO_PAYLOAD: usize = 1150;

/// One encoded frame (an H.264 access unit or NAL unit).
pub struct EncodedFrame {
    pub sequence: u64,
    pub timestamp: u64,
    pub keyframe: bool,
    pub codec: VideoCodec,
    pub width: usize,
    pub height: usize,
    pub data: Vec<u8>,
}

/// The mathematical content of an [`EncodedFrame`].
pub struct EncodedFrameV {
    pub sequence: u64,
    pub timestamp: u64,
    pub keyframe: bool,
    pub codec: VideoCodec,
    pub width: usize,
    pub height: usize,
    pub data: Seq<u8>,
}

impl View for EncodedFrame {
    type V = EncodedFrameV;

    open spec fn view(&self) -> EncodedFrameV {
        EncodedFrameV {
            sequence: self.sequence,
            timestamp: self.timestamp,
            keyframe: self.keyframe,
            codec: self.codec,
            width: self.width,
            height: self.height,
            data: self.data@,
        }
    }
}

/// How many fragments `n` bytes make: `n` divided by the payload size,
/// rounded up.
pub open spec fn fragment_count(n: nat) -> nat {
    n / (MAX_VIDEO_PAYLOAD as nat) + if n % (MAX_VIDEO_PAYLOAD as nat) != 0 {
        1nat
    } else {
        0nat
    }
}

/// The bytes of fragment `i`: the `i`-th run of the payload size, the last
/// one shorter.
pub open spec fn fragment_bytes(data: Seq<u8>, i: int) -> Seq<u8> {
    let start = i * MAX_VIDEO_PAYLOAD;
    let end = if start + MAX_VIDEO_PAYLOAD < data.len() {
        start + MAX_VIDEO_PAYLOAD
    } else {
        data.len() as int
    };
    data.subrange(start, end)
}

/// Fragment `i` of a frame sent by `uid`: the frame's fields, the index and
/// count cut to 16 bits and the dimensions to 32 bits.
pub open spec fn fragment(uid: u64, f: EncodedFrameV, i: int) -> VideoPacketV {
    VideoPacketV {
        uid,
        frame_id: f.sequence,
        timestamp: f.timestamp,
        packet_index: i as u16,
        packet_total: fragment_count(f.data.len()) as u16,
        keyframe: f.keyframe,
        codec: f.codec,
        width: f.width as u32,
        height: f.height as u32,
        data: fragment_bytes(f.data, i),
    }
}

proof fn lemma_fragment_count(n: nat, i: nat)
    ensures
        i < fragment_count(n) <==> i * MAX_VIDEO_PAYLOAD < n,
{
    assert(i < fragment_count(n) <==> i * 1150 < n) by (nonlinear_arith);
}

/// Splits a frame into the fragments that carry it: one per run of
/// [`MAX_VIDEO_PAYLOAD`] bytes, none for an empty frame.
pub fn packetize(uid: u64, frame: &EncodedFrame) -> (packets: Vec<VideoPacket>)
    ensures
        packets@.len() == fragment_count(frame.data@.len()),
        forall|i: int| 0 <= i < packets@.len() ==> #[trigger] packets@[i]@ == fragment(uid, frame@, i),
{
    let n = frame.data.len();
    if n == 0 {
        return Vec::new();
    }
    let packet_total = n / MAX_VIDEO_PAYLOAD + if n % MAX_VIDEO_PAYLOAD != 0 {
        1
    } else {
        0
    };
    let mut packets: Vec<VideoPacket> = Vec::new();
    let mut index: usize = 0;
    while index < packet_total
        invariant
            n == frame.data@.len(),
            packet_total == fragment_count(n as nat),
            index <= packet_total,
            packets@.len() == index,
            forall|i: int| 0 <= i < packets@.len() ==> #[trigger] packets@[i]@ == fragment(uid, frame@, i),
        decreases packet_total - index,
    {
        proof {
            lemma_fragment_count(n as nat, index as nat);
        }
        let start = index * MAX_VIDEO_PAYLOAD;
        let end = if n - start > MAX_VIDEO_PAYLOAD {
            start + MAX_VIDEO_PAYLOAD
        } else {
            n
        };
        let data = vstd::slice::slice_to_vec(&frame.data.as_slice()[start..end]);
        let packet = VideoPacket {
            uid,
            frame_id: frame.sequence,
            packet_index: #[verifier::truncate] (index as u16),
            packet_total: #[verifier::truncate] (packet_total as u16),
            codec: frame.codec,
            width: #[verifier::truncate] (frame.width as u32),
            height: #[verifier::truncate] (frame.height as u32),
            timestamp: frame.timestamp,
            keyframe: frame.keyframe,
            data,
        };
        assert(packet@ == fragment(uid, frame@, index as int));
        packets.push(packet);
        index = index + 1;
    }
    packets
}

} // verus!
