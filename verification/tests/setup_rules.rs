use streamshare::media::ffmpeg::{
    annexb_unit, capture_args, check_capture_settings, check_decoder_settings, check_encoder_settings,
    contains_bytes, decoder_args, encoder_args, lists_codec, raw_frame_size, writer_step, MediaSettingsError, WriterAction,
};
use streamshare::network::stream::{auth_message, auth_username, check_packet_length, decode_packet, frame, frame_packet, frame_tcp_packet, ReceiveError, MAX_PACKET_LEN};
use streamshare::protocol::command::ClientPacket;
use streamshare::protocol::tcp::TcpPacket;
use streamshare::text::decimal_string;

#[test]
fn numbers_are_written_in_decimal() {
    assert_eq!(decimal_string(0), "0");
    assert_eq!(decimal_string(7), "7");
    assert_eq!(decimal_string(1920), "1920");
    assert_eq!(decimal_string(u64::MAX), "18446744073709551615");
}

#[test]
fn encoder_command_line() {
    let args = encoder_args(1920, 1080, 60, 5000);
    assert_eq!(args.len(), 39);
    assert_eq!(args[8], "1920x1080");
    assert_eq!(args[10], "60");
    assert_eq!(args[23], "5000k");
    assert_eq!(args[27], "10000k");
    assert_eq!(args[29], "120");
    assert_eq!(args[31], "60");
    assert_eq!(args[38], "pipe:1");
}

#[test]
fn capture_command_line() {
    let args = capture_args(1920, 1080, 60, 5000);
    assert_eq!(args.len(), 30);
    assert_eq!(args[6], "ddagrab=output_idx=0:framerate=60:video_size=1920x1080:draw_mouse=1");
    assert_eq!(args[18], "120");
    assert_eq!(args[20], "120");
    assert_eq!(args[24], "5000k");
    assert_eq!(args[26], "h264_metadata=aud=insert");
}

#[test]
fn decoder_command_line() {
    let with = decoder_args(true);
    let without = decoder_args(false);
    assert_eq!(with.len(), 19);
    assert_eq!(with[8], "h264_cuvid");
    assert_eq!(without[8], "h264");
    assert_eq!(with[18], "pipe:1");
}

#[test]
fn settings_are_checked_in_order() {
    assert_eq!(check_encoder_settings(0, 1080, 0, 0), Err(MediaSettingsError::InvalidDimensions { width: 0, height: 1080 }));
    assert_eq!(check_encoder_settings(1920, 1080, 0, 0), Err(MediaSettingsError::ZeroFps));
    assert_eq!(check_encoder_settings(1920, 1080, 60, 0), Err(MediaSettingsError::ZeroBitrate));
    assert_eq!(check_encoder_settings(1920, 1080, 60, 5000), Ok(()));
    assert_eq!(check_capture_settings(1920, 0, 60), Err(MediaSettingsError::InvalidDimensions { width: 1920, height: 0 }));
    assert_eq!(check_capture_settings(1920, 1080, 0), Err(MediaSettingsError::ZeroFps));
    assert_eq!(check_decoder_settings(1, 1), Ok(()));
}

#[test]
fn codec_listings_are_searched() {
    let listing = " V....D h264_nvenc  NVIDIA NVENC H.264 encoder (codec h264)\n V....D libx264";
    assert!(lists_codec(listing, "h264_nvenc"));
    assert!(!lists_codec(listing, "h264_cuvid"));
    assert!(contains_bytes(b"abc", b""));
    assert!(!contains_bytes(b"ab", b"abc"));
    assert!(contains_bytes(b"xxabc", b"abc"));
}

#[test]
fn decoder_input_and_frame_size() {
    assert_eq!(annexb_unit(&[0x65, 1]), vec![0, 0, 0, 1, 0x65, 1]);
    assert_eq!(raw_frame_size(1920, 1080), 1920 * 1080 * 4);
}

#[test]
fn control_packets_are_length_prefixed() {
    let bytes = frame_packet(&ClientPacket::StreamStarted);
    assert_eq!(bytes, vec![0, 0, 0, 1, 0x11]);
    let tcp = frame_tcp_packet(&TcpPacket::AuthDenied);
    assert_eq!(tcp, vec![0, 0, 0, 1, 0x11]);
    assert_eq!(check_packet_length(MAX_PACKET_LEN), Ok(65536));
    assert_eq!(check_packet_length(MAX_PACKET_LEN + 1), Err(ReceiveError::TooLarge { len: 65537 }));
    assert!(matches!(decode_packet::<ClientPacket>(&[0x12]), Ok(ClientPacket::StreamStopped)));
    assert!(matches!(decode_packet::<ClientPacket>(&[0x99]), Err(ReceiveError::Invalid)));
}

#[test]
fn authentication_answer_bytes() {
    let response = [7u8; 32];
    let bytes = auth_message("ann", &response);
    assert_eq!(&bytes[..5], &[0, 3, b'a', b'n', b'n']);
    assert_eq!(&bytes[5..], &response[..]);
}

#[test]
fn frame_puts_length_before_body() {
    assert_eq!(frame(vec![7, 8, 9]), vec![0, 0, 0, 3, 7, 8, 9]);
    assert_eq!(frame(Vec::new()), vec![0, 0, 0, 0]);
}

#[test]
fn the_writer_stops_drops_or_writes() {
    assert_eq!(writer_step(false, 4, 2, 32, 4, 2), WriterAction::Stop);
    assert_eq!(writer_step(true, 4, 2, 32, 4, 2), WriterAction::Write);
    assert_eq!(writer_step(true, 4, 3, 32, 4, 2), WriterAction::Drop);
    assert_eq!(writer_step(true, 4, 2, 31, 4, 2), WriterAction::Drop);
    assert_eq!(writer_step(true, usize::MAX, 2, 0, usize::MAX, 2), WriterAction::Drop);
}

#[test]
fn a_login_username_is_read_as_text() {
    assert_eq!(auth_username(b"zo\xc3\xa9".to_vec()), Some("zoé".to_string()));
    assert_eq!(auth_username(vec![0xff, 0x41]), None);
}
