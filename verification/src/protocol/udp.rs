//! Datagrams of the earlier UDP media channel.
use vstd::prelude::*;
use super::video::{VideoPacket, VideoPacketV, video_parse, video_wire, video_packet_roundtrip, fragment_in_range};
use super::wire::{be_u64, put_bytes, put_u64, u64_be, lemma_u64_roundtrip};

verus! {

/// The kind of a datagram, its first byte.
#[derive(Copy, Clone, PartialEq, Eq, Structural)]
pub enum PacketType {
    Register,
    Video,
    Heartbeat,
}

/// The first byte of each kind of datagram.
pub open spec fn type_byte(t: PacketType) -> u8 {
    match t {
        PacketType::Register => 1,
        PacketType::Video => 2,
        PacketType::Heartbeat => 3,
    }
}

impl PacketType {
    /// The kind a first byte names, if any.
    pub fn from_u8(value: u8) -> (t: Option<PacketType>)
        ensures
            match t {
                Some(k) => type_byte(k) == value,
                None => value != 1 && value != 2 && value != 3,
            },
    {
        if value == 1 {
            Some(PacketType::Register)
        } else if value == 2 {
            Some(PacketType::Video)
        } else if value == 3 {
            Some(PacketType::Heartbeat)
        } else {
            None
        }
    }

    /// The first byte of this kind.
    pub fn as_u8(self) -> (b: u8)
        ensures
            b == type_byte(self),
    {
        match self {
            PacketType::Register => 1,
            PacketType::Video => 2,
            PacketType::Heartbeat => 3,
        }
    }
}

/// A datagram of the UDP channel.
pub enum UdpPacket {
    Register { uid: u64 },
    Video(VideoPacket),
    Heartbeat,
}

/// The mathematical content of a [`UdpPacket`].
pub enum UdpPacketV {
    Register { uid: u64 },
    Video(VideoPacketV),
    Heartbeat,
}

impl View for UdpPacket {
    type V = UdpPacketV;

    open spec fn view(&self) -> UdpPacketV {
        match self {
            UdpPacket::Register { uid } => UdpPacketV::Register { uid: *uid },
            UdpPacket::Video(v) => UdpPacketV::Video(v@),
            UdpPacket::Heartbeat => UdpPacketV::Heartbeat,
        }
    }
}

/// The bytes of a datagram: its kind, then its content.
pub open spec fn udp_wire(p: UdpPacketV) -> Seq<u8> {
    match p {
        UdpPacketV::Register { uid } => seq![1u8] + u64_be(uid),
        UdpPacketV::Video(v) => seq![2u8] + video_wire(v),
        UdpPacketV::Heartbeat => seq![3u8],
    }
}

/// What a datagram reads as. A registration ignores bytes after its uid and
/// a heartbeat everything after its first byte.
pub open spec fn udp_parse(buf: Seq<u8>) -> Option<UdpPacketV> {
    if buf.len() == 0 {
        None
    } else if buf[0] == 1 {
        if buf.len() < 9 {
            None
        } else {
            Some(UdpPacketV::Register { uid: be_u64(buf.subrange(1, 9)) })
        }
    } else if buf[0] == 2 {
        match video_parse(buf.skip(1)) {
            Some(v) => Some(UdpPacketV::Video(v)),
            None => None,
        }
    } else if buf[0] == 3 {
        Some(UdpPacketV::Heartbeat)
    } else {
        None
    }
}

impl UdpPacket {
    /// The datagram a buffer holds, as [`udp_parse`] reads it.
    pub fn decode(buf: &[u8]) -> (res: Option<UdpPacket>)
        ensures
            match udp_parse(buf@) {
                None => res is None,
                Some(v) => res matches Some(p) && p@ == v,
            },
    {
        if buf.len() == 0 {
            return None;
        }
        let packet_type = match PacketType::from_u8(buf[0]) {
            Some(t) => t,
            None => return None,
        };
        match packet_type {
            PacketType::Register => {
                if buf.len() < 9 {
                    return None;
                }
                let uid = ((buf[1] as u64) << 56u64) | ((buf[2] as u64) << 48u64) | ((
                buf[3] as u64) << 40u64) | ((buf[4] as u64) << 32u64) | ((buf[5] as u64)
                    << 24u64) | ((buf[6] as u64) << 16u64) | ((buf[7] as u64) << 8u64) | (
                buf[8] as u64);
                Some(UdpPacket::Register { uid })
            },
            PacketType::Video => {
                let rest = &buf[1..buf.len()];
                assert(rest@ =~= buf@.skip(1));
                match VideoPacket::decode(rest) {
                    Some(v) => Some(UdpPacket::Video(v)),
                    None => None,
                }
            },
            PacketType::Heartbeat => Some(UdpPacket::Heartbeat),
        }
    }

    /// The datagram's bytes.
    pub fn encode(&self) -> (out: Vec<u8>)
        ensures
            out@ == udp_wire(self@),
    {
        match self {
            UdpPacket::Register { uid } => {
                let mut out: Vec<u8> = Vec::with_capacity(9);
                out.push(PacketType::Register.as_u8());
                put_u64(&mut out, *uid);
                assert(out@ =~= udp_wire(self@));
                out
            },
            UdpPacket::Video(video) => {
                let video_data = video.encode();
                let mut out: Vec<u8> = Vec::new();
                out.push(PacketType::Video.as_u8());
                put_bytes(&mut out, video_data.as_slice());
                assert(out@ =~= udp_wire(self@));
                out
            },
            UdpPacket::Heartbeat => {
                let mut out: Vec<u8> = Vec::new();
                out.push(PacketType::Heartbeat.as_u8());
                assert(out@ =~= udp_wire(self@));
                out
            },
        }
    }
}

/// A datagram reads back as itself once written, except a video fragment
/// whose index lies outside its frame, which reads as nothing.
pub proof fn udp_packet_roundtrip(p: UdpPacketV)
    ensures
        udp_parse(udp_wire(p)) == (match p {
            UdpPacketV::Video(v) => if fragment_in_range(v) {
                Some(p)
            } else {
                None
            },
            _ => Some(p),
        }),
{
    let b = udp_wire(p);
    match p {
        UdpPacketV::Register { uid } => {
            assert(b.subrange(1, 9) =~= u64_be(uid));
            lemma_u64_roundtrip(uid);
        },
        UdpPacketV::Video(v) => {
            assert(b.skip(1) =~= video_wire(v));
            video_packet_roundtrip(v);
        },
        _ => {},
    }
}

} // verus!
