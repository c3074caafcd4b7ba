use streamshare::media::annexb::{contains_idr, find_next_access_unit, find_next_frame, find_start_code, start_code_length};
use streamshare::media::encoder::{packetize, EncodedFrame, MAX_VIDEO_PAYLOAD};
use streamshare::media::reassembler::VideoReassembler;
use streamshare::protocol::command::{ClientPacket, Packet, ServerPacket, StreamInfo, UserInfo};
use streamshare::protocol::tcp::TcpPacket;
use streamshare::protocol::udp::{PacketType, UdpPacket};
use streamshare::protocol::video::{VideoCodec, VideoPacket, HEADER_SIZE};
use streamshare::protocol::wire::{put_string, put_u16, put_u64, read_string, read_u16, read_u64};

fn frame(len: usize) -> EncodedFrame {
    EncodedFrame {
        sequence: 11,
        timestamp: 1234,
        keyframe: true,
        codec: VideoCodec::H264,
        width: 1920,
        height: 1080,
        data: (0..len).map(|i| (i % 251) as u8).collect(),
    }
}

#[test]
fn wire_integers_and_strings_round_trip() {
    let mut out = Vec::new();
    put_u16(&mut out, 0xBEEF);
    put_u64(&mut out, 0x0102_0304_0506_0708);
    put_string(&mut out, "héllo");
    assert_eq!(&out[..2], &[0xBE, 0xEF]);
    assert_eq!(&out[2..10], &[1, 2, 3, 4, 5, 6, 7, 8]);
    assert_eq!(&out[10..12], &[0, 6]);
    let mut buf: &[u8] = &out;
    assert_eq!(read_u16(&mut buf), Some(0xBEEF));
    assert_eq!(read_u64(&mut buf), Some(0x0102_0304_0506_0708));
    assert_eq!(read_string(&mut buf).as_deref(), Some("héllo"));
    assert!(buf.is_empty());
    let mut short: &[u8] = &[1];
    assert_eq!(read_u16(&mut short), None);
    assert_eq!(short, &[1]);
}

#[test]
fn client_packets_round_trip() {
    let packet = ClientPacket::Authenticate { username: "ann".into(), password: "pw".into() };
    let bytes = packet.encode();
    assert_eq!(bytes[0], 0x10);
    assert!(matches!(ClientPacket::decode(&bytes), Some(ClientPacket::Authenticate { ref username, ref password }) if username == "ann" && password == "pw"));
    let watch = ClientPacket::WatchStream { uid: 77 }.encode();
    assert_eq!(watch, vec![0x13, 0, 0, 0, 0, 0, 0, 0, 77]);
    assert!(matches!(ClientPacket::decode(&watch), Some(ClientPacket::WatchStream { uid: 77 })));
    assert!(matches!(ClientPacket::decode(&[0x15]), Some(ClientPacket::Disconnect)));
    assert!(ClientPacket::decode(&[0x15, 0]).is_none());
    assert!(ClientPacket::decode(&[]).is_none());
    assert!(ClientPacket::decode(&[0x42]).is_none());
}

#[test]
fn server_packets_round_trip() {
    let packet = ServerPacket::InitialState {
        users: vec![UserInfo { uid: 1, username: "ann".into() }, UserInfo { uid: 2, username: "bob".into() }],
        streams: vec![StreamInfo { uid: 2, username: "bob".into() }],
    };
    let bytes = packet.encode();
    match ServerPacket::decode(&bytes) {
        Some(ServerPacket::InitialState { users, streams }) => {
            assert_eq!(users.len(), 2);
            assert_eq!(users[1].uid, 2);
            assert_eq!(users[1].username, "bob");
            assert_eq!(streams.len(), 1);
            assert_eq!(streams[0].username, "bob");
        }
        _ => panic!("initial state did not round-trip"),
    }
    let joined = ServerPacket::UserJoined { uid: 5, username: "eve".into() }.encode();
    assert!(matches!(ServerPacket::decode(&joined), Some(ServerPacket::UserJoined { uid: 5, ref username }) if username == "eve"));
    assert!(matches!(ServerPacket::decode(&ServerPacket::AuthAccepted { uid: 9 }.encode()), Some(ServerPacket::AuthAccepted { uid: 9 })));
    assert!(ServerPacket::decode(&joined[..joined.len() - 1]).is_none());
}

#[test]
fn tcp_packets_round_trip() {
    let packet = TcpPacket::StreamStarted { uid: 3, username: "cy".into() };
    let bytes = packet.encode();
    assert!(matches!(TcpPacket::decode(&bytes), Some(TcpPacket::StreamStarted { uid: 3, ref username }) if username == "cy"));
    assert!(matches!(TcpPacket::decode(&TcpPacket::SendUID { uid: 8 }.encode()), Some(TcpPacket::SendUID { uid: 8 })));
    assert!(matches!(TcpPacket::decode(&TcpPacket::AuthAccepted.encode()), Some(TcpPacket::AuthAccepted)));
    assert!(TcpPacket::decode(&[]).is_none());
}

#[test]
fn video_and_udp_packets_round_trip() {
    let packet = VideoPacket {
        uid: 1,
        frame_id: 2,
        timestamp: 3,
        packet_index: 0,
        packet_total: 2,
        keyframe: true,
        codec: VideoCodec::H264,
        width: 640,
        height: 480,
        data: vec![9, 8, 7],
    };
    let bytes = packet.encode();
    assert_eq!(bytes.len(), HEADER_SIZE + 3);
    let back = VideoPacket::decode(&bytes).unwrap();
    assert_eq!(back.frame_id, 2);
    assert_eq!(back.width, 640);
    assert_eq!(back.data, vec![9, 8, 7]);
    let mut bad = bytes.clone();
    bad[26] = 0;
    bad[27] = 0;
    assert!(VideoPacket::decode(&bad).is_none());
    let udp = UdpPacket::Video(packet).encode();
    assert_eq!(udp[0], PacketType::Video.as_u8());
    assert!(matches!(UdpPacket::decode(&udp), Some(UdpPacket::Video(ref v)) if v.data == vec![9, 8, 7]));
    assert!(matches!(UdpPacket::decode(&UdpPacket::Register { uid: 4 }.encode()), Some(UdpPacket::Register { uid: 4 })));
    assert!(matches!(UdpPacket::decode(&UdpPacket::Heartbeat.encode()), Some(UdpPacket::Heartbeat)));
    assert!(PacketType::from_u8(0xEE).is_none());
    assert_eq!(VideoCodec::from_u8(VideoCodec::H264.as_u8()), Some(VideoCodec::H264));
}

#[test]
fn a_frame_is_cut_into_payload_sized_fragments() {
    let f = frame(2 * MAX_VIDEO_PAYLOAD + 10);
    let packets = packetize(42, &f);
    assert_eq!(packets.len(), 3);
    assert_eq!(packets[0].data.len(), MAX_VIDEO_PAYLOAD);
    assert_eq!(packets[2].data.len(), 10);
    assert!(packets.iter().all(|p| p.uid == 42 && p.frame_id == 11 && p.packet_total == 3));
    assert_eq!(packetize(1, &frame(0)).len(), 0);
}

#[test]
fn reassembly_gives_the_frame_back_at_its_last_fragment() {
    let f = frame(3 * MAX_VIDEO_PAYLOAD);
    let packets = packetize(7, &f);
    let mut r = VideoReassembler::new();
    let total = packets.len();
    for (i, p) in packets.into_iter().enumerate() {
        let out = r.push(p);
        if i + 1 < total {
            assert!(out.is_none());
        } else {
            let done = out.unwrap();
            assert_eq!(done.data, f.data);
            assert_eq!(done.sequence, 11);
            assert!(done.keyframe);
        }
    }
}

#[test]
fn annexb_start_codes_and_units() {
    let data = [0u8, 0, 0, 1, 0x09, 0x10, 0, 0, 1, 0x65, 0x88, 0, 0, 0, 1, 0x09, 0x10, 0, 0, 1, 0x41, 0xFF];
    assert_eq!(start_code_length(&data), Some(4));
    assert_eq!(start_code_length(&data[6..]), Some(3));
    assert_eq!(start_code_length(&data[4..]), None);
    assert_eq!(find_start_code(&data, 1), Some(1));
    assert_eq!(find_start_code(&data, 2), Some(6));
    assert_eq!(find_start_code(&data, 12), Some(12));
    assert_eq!(find_start_code(&data, 20), None);
    assert_eq!(find_next_access_unit(&data), Some(11));
    assert_eq!(find_next_frame(&data), Some(11));
    assert!(contains_idr(&data[..11]));
    assert!(!contains_idr(&data[11..]));
}

#[test]
fn reassembly_gives_the_frame_back_in_any_order() {
    let f = frame(3 * MAX_VIDEO_PAYLOAD + 5);
    let packets = packetize(7, &f);
    assert_eq!(packets.len(), 4);
    let mut r = VideoReassembler::new();
    let order = [2usize, 0, 3, 1];
    let mut slots: Vec<Option<_>> = packets.into_iter().map(Some).collect();
    for (k, &i) in order.iter().enumerate() {
        let out = r.push(slots[i].take().unwrap());
        if k + 1 < order.len() {
            assert!(out.is_none());
        } else {
            let done = out.unwrap();
            assert_eq!(done.data, f.data);
            assert_eq!(done.sequence, 11);
        }
    }
}

#[test]
fn a_decoded_tcp_packet_encodes_to_the_same_bytes() {
    let bytes = vec![0x14u8, 0, 0, 0, 0, 0, 0, 0, 9, 0, 3, b'e', b'v', b'e'];
    let packet = TcpPacket::decode(&bytes).unwrap();
    assert_eq!(packet.encode(), bytes);
    let error = vec![0x17u8, 0, 2, b'n', b'o'];
    assert_eq!(TcpPacket::decode(&error).unwrap().encode(), error);
    let mut longer = bytes.clone();
    longer.push(0);
    assert!(TcpPacket::decode(&longer).is_none());
}
