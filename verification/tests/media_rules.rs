use streamshare::media::encoder::EncodedFrame;
use streamshare::media::letterbox::{draw_letterboxed, Letterbox};
use streamshare::media::h264::{access_unit_frame, drain_access_units, drain_nal_units, is_parameter_set, nal_frame};
use streamshare::protocol::video::VideoCodec;

#[test]
fn nal_units_come_off_the_front() {
    let mut buffer = vec![9, 9, 0, 0, 0, 1, 0x65, 1, 2, 0, 0, 1, 0x41, 7, 0, 0, 1, 0x06];
    let units = drain_nal_units(&mut buffer);
    assert_eq!(units, vec![vec![0x65, 1, 2], vec![0x41, 7]]);
    assert_eq!(buffer, vec![0, 0, 1, 0x06]);
}

#[test]
fn without_a_start_code_only_four_bytes_are_kept() {
    let mut buffer = vec![1, 2, 3, 4, 5, 6, 0, 0];
    assert!(drain_nal_units(&mut buffer).is_empty());
    assert_eq!(buffer, vec![5, 6, 0, 0]);
    let mut short = vec![1, 0, 0];
    assert!(drain_nal_units(&mut short).is_empty());
    assert_eq!(short, vec![1, 0, 0]);
}

#[test]
fn empty_units_are_skipped() {
    let mut buffer = vec![0, 0, 1, 0, 0, 1, 0x41, 0, 0, 1];
    let units = drain_nal_units(&mut buffer);
    assert_eq!(units, vec![vec![0x41]]);
    assert_eq!(buffer, vec![0, 0, 1]);
}

#[test]
fn idr_units_are_keyframes() {
    let frame = nal_frame(3, 40, 1920, 1080, vec![0x65, 0xAA]);
    assert!(frame.keyframe);
    assert_eq!(frame.sequence, 3);
    assert_eq!(frame.timestamp, 40);
    assert_eq!(frame.width, 1920);
    let frame = nal_frame(4, 41, 1920, 1080, vec![0x41, 0xAA]);
    assert!(!frame.keyframe);
}

#[test]
fn access_units_split_at_delimiters() {
    let aud = [0u8, 0, 0, 1, 0x09, 0xF0];
    let idr = [0u8, 0, 1, 0x65, 0x88];
    let slice = [0u8, 0, 1, 0x41, 0x9A];
    let mut buffer = Vec::new();
    buffer.extend_from_slice(&aud);
    buffer.extend_from_slice(&idr);
    buffer.extend_from_slice(&aud);
    buffer.extend_from_slice(&slice);
    buffer.extend_from_slice(&aud);
    buffer.extend_from_slice(&[0x01]);
    let units = drain_access_units(&mut buffer);
    assert_eq!(units.len(), 2);
    assert_eq!(units[0].len(), aud.len() + idr.len());
    assert_eq!(units[1].len(), aud.len() + slice.len());
    assert_eq!(buffer, vec![0, 0, 0, 1, 0x09, 0xF0, 0x01]);
    let first = access_unit_frame(2, 60, 1920, 1080, units[0].clone());
    assert!(first.keyframe);
    assert_eq!(first.timestamp, 2 * 16);
    let second = access_unit_frame(3, 60, 1920, 1080, units[1].clone());
    assert!(!second.keyframe);
    assert_eq!(second.height, 1080);
}

#[test]
fn parameter_sets_are_always_delivered() {
    let frame = |data: Vec<u8>| EncodedFrame {
        sequence: 0,
        timestamp: 0,
        keyframe: false,
        codec: VideoCodec::H264,
        width: 1,
        height: 1,
        data,
    };
    assert!(is_parameter_set(&frame(vec![0x67, 1])));
    assert!(is_parameter_set(&frame(vec![0x68])));
    assert!(!is_parameter_set(&frame(vec![0x65])));
    assert!(!is_parameter_set(&frame(vec![])));
}

#[test]
fn kept_bytes_give_nothing_until_more_arrive() {
    let mut buffer = vec![0, 0, 1, 0x65, 7, 0, 0, 1, 0x41, 8];
    let first = drain_nal_units(&mut buffer);
    assert_eq!(first, vec![vec![0x65, 7]]);
    let kept = buffer.clone();
    assert!(drain_nal_units(&mut buffer).is_empty());
    assert_eq!(buffer, kept);

    let mut units = vec![0, 0, 0, 1, 0x09, 0xF0, 0, 0, 1, 0x65, 1, 0, 0, 0, 1, 0x09, 0xF0, 0, 0, 1, 0x41];
    assert_eq!(drain_access_units(&mut units).len(), 1);
    let kept = units.clone();
    assert!(drain_access_units(&mut units).is_empty());
    assert_eq!(units, kept);
}

#[test]
fn frame_is_scaled_into_the_middle_on_black() {
    // A 2x1 BGRA frame: a blue pixel then a red one.
    let frame = [255u8, 0, 0, 0, 0, 0, 255, 0];
    let g = Letterbox {
        video_width: 2,
        video_height: 1,
        target_width: 6,
        target_height: 3,
        scaled_width: 4,
        scaled_height: 2,
    };
    let mut out = vec![7u8; 6 * 3 * 4 + 2];
    draw_letterboxed(&frame, g, &mut out);
    let pixel = |x: usize, y: usize| -> [u8; 4] {
        let i = (y * 6 + x) * 4;
        [out[i], out[i + 1], out[i + 2], out[i + 3]]
    };
    assert_eq!(pixel(0, 0), [0, 0, 0, 255]);
    assert_eq!(pixel(1, 0), [0, 0, 255, 255]);
    assert_eq!(pixel(2, 0), [0, 0, 255, 255]);
    assert_eq!(pixel(3, 0), [255, 0, 0, 255]);
    assert_eq!(pixel(4, 0), [255, 0, 0, 255]);
    assert_eq!(pixel(5, 0), [0, 0, 0, 255]);
    assert_eq!(pixel(1, 1), [0, 0, 255, 255]);
    assert_eq!(pixel(1, 2), [0, 0, 0, 255]);
    assert_eq!(&out[72..], &[7, 7]);
}

#[test]
fn a_frame_that_cannot_be_drawn_leaves_the_target() {
    let g = Letterbox {
        video_width: 4,
        video_height: 1,
        target_width: 2,
        target_height: 2,
        scaled_width: 2,
        scaled_height: 1,
    };
    let mut out = vec![9u8; 16];
    draw_letterboxed(&[1, 2, 3], g, &mut out);
    assert_eq!(out, vec![9u8; 16]);
}
