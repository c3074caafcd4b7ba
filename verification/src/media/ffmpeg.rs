//! How the FFmpeg encoder and decoder processes are set up: the checks on
//! their settings, their command lines, whether FFmpeg offers a codec, and
//! the bytes written to a decoder.
use vstd::prelude::*;
use crate::protocol::wire::{put_bytes, utf8};
use crate::text::{decimal, decimal_string};

verus! {

/// The FFmpeg process that decodes H.264 into raw BGRA frames.
pub struct FFmpegDecoder;

/// Why encoder or decoder settings were refused.
#[derive(Debug, Clone, Copy, PartialEq, Eq, Structural)]
pub enum MediaSettingsError {
    /// A dimension is zero.
    InvalidDimensions { width: u32, height: u32 },
    /// The frame rate is zero.
    ZeroFps,
    /// The bit rate is zero.
    ZeroBitrate,
}

/// Checks the settings of the NVENC encoder: both dimensions, the frame rate
/// and the bit rate must be above zero, and are checked in that order.
pub fn check_encoder_settings(width: u32, height: u32, fps: u32, bitrate_kbps: u32) -> (res: Result<
    (),
    MediaSettingsError,
>)
    ensures
        res == (if width == 0 || height == 0 {
            Err(MediaSettingsError::InvalidDimensions { width, height })
        } else if fps == 0 {
            Err(MediaSettingsError::ZeroFps)
        } else if bitrate_kbps == 0 {
            Err(MediaSettingsError::ZeroBitrate)
        } else {
            Ok(())
        }),
{
    if width == 0 || height == 0 {
        return Err(MediaSettingsError::InvalidDimensions { width, height });
    }
    if fps == 0 {
        return Err(MediaSettingsError::ZeroFps);
    }
    if bitrate_kbps == 0 {
        return Err(MediaSettingsError::ZeroBitrate);
    }
    Ok(())
}

/// Checks the settings of the screen capture: both dimensions and the frame
/// rate must be above zero.
pub fn check_capture_settings(width: u32, height: u32, fps: u32) -> (res: Result<
    (),
    MediaSettingsError,
>)
    ensures
        res == (if width == 0 || height == 0 {
            Err(MediaSettingsError::InvalidDimensions { width, height })
        } else if fps == 0 {
            Err(MediaSettingsError::ZeroFps)
        } else {
            Ok(())
        }),
{
    if width == 0 || height == 0 {
        return Err(MediaSettingsError::InvalidDimensions { width, height });
    }
    if fps == 0 {
        return Err(MediaSettingsError::ZeroFps);
    }
    Ok(())
}

/// Checks the dimensions a decoder is started with: both must be above
/// zero.
pub fn check_decoder_settings(width: u32, height: u32) -> (res: Result<(), MediaSettingsError>)
    ensures
        res == (if width == 0 || height == 0 {
            Err(MediaSettingsError::InvalidDimensions { width, height })
        } else {
            Ok(())
        }),
{
    if width == 0 || height == 0 {
        return Err(MediaSettingsError::InvalidDimensions { width, height });
    }
    Ok(())
}

/// The texts of a list of strings.
pub open spec fn texts(v: Seq<String>) -> Seq<Seq<char>> {
    v.map_values(|s: String| s@)
}

fn push_text(args: &mut Vec<String>, text: &str)
    ensures
        texts(final(args)@) == texts(old(args)@).push(text@),
{
    args.push(String::from_str(text));
    proof {
        assert(texts(args@) =~= texts(old(args)@).push(text@));
    }
}

fn push_string(args: &mut Vec<String>, text: String)
    ensures
        texts(final(args)@) == texts(old(args)@).push(text@),
{
    let ghost t = text@;
    args.push(text);
    proof {
        assert(texts(args@) =~= texts(old(args)@).push(t));
    }
}

/// A bit rate as FFmpeg writes it: kilobits with a `k` after them.
pub open spec fn kilobits(n: nat) -> Seq<char> {
    decimal(n) + "k"@
}

fn kilobits_string(n: u32) -> (s: String)
    ensures
        s@ == kilobits(n as nat),
{
    let mut s = decimal_string(n as u64);
    s.append("k");
    s
}

/// Dimensions as FFmpeg writes them, such as `1920x1080`.
pub open spec fn size_text(width: nat, height: nat) -> Seq<char> {
    decimal(width) + "x"@ + decimal(height)
}

fn size_string(width: u32, height: u32) -> (s: String)
    ensures
        s@ == size_text(width as nat, height as nat),
{
    let mut s = decimal_string(width as u64);
    s.append("x");
    let h = decimal_string(height as u64);
    s.append(h.as_str());
    s
}

/// The command line of the NVENC encoder that reads raw BGRA frames of
/// `width` by `height` at `fps` frames a second on its input and writes
/// H.264 at `bitrate_kbps` on its output.
pub open spec fn encoder_arguments(width: nat, height: nat, fps: nat, bitrate_kbps: nat) -> Seq<
    Seq<char>,
> {
    seq![
        "-hide_banner"@,
        "-loglevel"@,
        "warning"@,
        "-f"@,
        "rawvideo"@,
        "-pix_fmt"@,
        "bgra"@,
        "-video_size"@,
        size_text(width, height),
        "-framerate"@,
        decimal(fps),
        "-i"@,
        "pipe:0"@,
        "-an"@,
        "-c:v"@,
        "h264_nvenc"@,
        "-preset"@,
        "p1"@,
        "-tune"@,
        "ull"@,
        "-rc"@,
        "cbr"@,
        "-b:v"@,
        kilobits(bitrate_kbps),
        "-maxrate"@,
        kilobits(bitrate_kbps),
        "-bufsize"@,
        kilobits(bitrate_kbps * 2),
        "-g"@,
        decimal(fps * 2),
        "-keyint_min"@,
        decimal(fps),
        "-bf"@,
        "0"@,
        "-forced-idr"@,
        "1"@,
        "-f"@,
        "h264"@,
        "pipe:1"@,
    ]
}

/// The command line of the NVENC encoder, as [`encoder_arguments`] gives
/// it.
pub fn encoder_args(width: u32, height: u32, fps: u32, bitrate_kbps: u32) -> (args: Vec<String>)
    requires
        fps * 2 <= u32::MAX,
        bitrate_kbps * 2 <= u32::MAX,
    ensures
        texts(args@) == encoder_arguments(width as nat, height as nat, fps as nat, bitrate_kbps as nat),
{
    let mut args: Vec<String> = Vec::new();
    push_text(&mut args, "-hide_banner");
    push_text(&mut args, "-loglevel");
    push_text(&mut args, "warning");
    push_text(&mut args, "-f");
    push_text(&mut args, "rawvideo");
    push_text(&mut args, "-pix_fmt");
    push_text(&mut args, "bgra");
    push_text(&mut args, "-video_size");
    push_string(&mut args, size_string(width, height));
    push_text(&mut args, "-framerate");
    push_string(&mut args, decimal_string(fps as u64));
    push_text(&mut args, "-i");
    push_text(&mut args, "pipe:0");
    push_text(&mut args, "-an");
    push_text(&mut args, "-c:v");
    push_text(&mut args, "h264_nvenc");
    push_text(&mut args, "-preset");
    push_text(&mut args, "p1");
    push_text(&mut args, "-tune");
    push_text(&mut args, "ull");
    push_text(&mut args, "-rc");
    push_text(&mut args, "cbr");
    push_text(&mut args, "-b:v");
    push_string(&mut args, kilobits_string(bitrate_kbps));
    push_text(&mut args, "-maxrate");
    push_string(&mut args, kilobits_string(bitrate_kbps));
    push_text(&mut args, "-bufsize");
    push_string(&mut args, kilobits_string(bitrate_kbps * 2));
    push_text(&mut args, "-g");
    push_string(&mut args, decimal_string((fps * 2) as u64));
    push_text(&mut args, "-keyint_min");
    push_string(&mut args, decimal_string(fps as u64));
    push_text(&mut args, "-bf");
    push_text(&mut args, "0");
    push_text(&mut args, "-forced-idr");
    push_text(&mut args, "1");
    push_text(&mut args, "-f");
    push_text(&mut args, "h264");
    push_text(&mut args, "pipe:1");
    proof {
        assert(texts(args@) =~= encoder_arguments(
            width as nat,
            height as nat,
            fps as nat,
            bitrate_kbps as nat,
        ));
    }
    args
}

/// The desktop-duplication input of the screen capture.
pub open spec fn capture_filter(width: nat, height: nat, fps: nat) -> Seq<char> {
    "ddagrab=output_idx=0:framerate="@ + decimal(fps) + ":video_size="@ + size_text(width, height)
        + ":draw_mouse=1"@
}

/// The command line of the screen capture that grabs the desktop at `fps`
/// frames a second and writes H.264 at `bitrate_kbps`, with an access unit
/// delimiter before each access unit.
pub open spec fn capture_arguments(width: nat, height: nat, fps: nat, bitrate_kbps: nat) -> Seq<
    Seq<char>,
> {
    seq![
        "-hide_banner"@,
        "-loglevel"@,
        "warning"@,
        "-f"@,
        "lavfi"@,
        "-i"@,
        capture_filter(width, height, fps),
        "-c:v"@,
        "h264_nvenc"@,
        "-preset"@,
        "p4"@,
        "-tune"@,
        "ll"@,
        "-zerolatency"@,
        "1"@,
        "-bf"@,
        "0"@,
        "-g"@,
        decimal(fps * 2),
        "-keyint_min"@,
        decimal(fps * 2),
        "-forced-idr"@,
        "1"@,
        "-b:v"@,
        kilobits(bitrate_kbps),
        "-bsf:v"@,
        "h264_metadata=aud=insert"@,
        "-f"@,
        "h264"@,
        "pipe:1"@,
    ]
}

/// The command line of the screen capture, as [`capture_arguments`] gives
/// it.
pub fn capture_args(width: u32, height: u32, fps: u32, bitrate_kbps: u32) -> (args: Vec<String>)
    requires
        fps * 2 <= u32::MAX,
    ensures
        texts(args@) == capture_arguments(width as nat, height as nat, fps as nat, bitrate_kbps as nat),
{
    let mut filter = String::from_str("ddagrab=output_idx=0:framerate=");
    let rate = decimal_string(fps as u64);
    filter.append(rate.as_str());
    filter.append(":video_size=");
    let size = size_string(width, height);
    filter.append(size.as_str());
    filter.append(":draw_mouse=1");
    let mut args: Vec<String> = Vec::new();
    push_text(&mut args, "-hide_banner");
    push_text(&mut args, "-loglevel");
    push_text(&mut args, "warning");
    push_text(&mut args, "-f");
    push_text(&mut args, "lavfi");
    push_text(&mut args, "-i");
    push_string(&mut args, filter);
    push_text(&mut args, "-c:v");
    push_text(&mut args, "h264_nvenc");
    push_text(&mut args, "-preset");
    push_text(&mut args, "p4");
    push_text(&mut args, "-tune");
    push_text(&mut args, "ll");
    push_text(&mut args, "-zerolatency");
    push_text(&mut args, "1");
    push_text(&mut args, "-bf");
    push_text(&mut args, "0");
    push_text(&mut args, "-g");
    push_string(&mut args, decimal_string((fps * 2) as u64));
    push_text(&mut args, "-keyint_min");
    push_string(&mut args, decimal_string((fps * 2) as u64));
    push_text(&mut args, "-forced-idr");
    push_text(&mut args, "1");
    push_text(&mut args, "-b:v");
    push_string(&mut args, kilobits_string(bitrate_kbps));
    push_text(&mut args, "-bsf:v");
    push_text(&mut args, "h264_metadata=aud=insert");
    push_text(&mut args, "-f");
    push_text(&mut args, "h264");
    push_text(&mut args, "pipe:1");
    proof {
        assert(texts(args@) =~= capture_arguments(
            width as nat,
            height as nat,
            fps as nat,
            bitrate_kbps as nat,
        ));
    }
    args
}

/// The command line of the decoder that reads an H.264 stream on its input
/// and writes raw BGRA frames on its output, with NVDEC (`h264_cuvid`) when
/// FFmpeg offers it and the software decoder otherwise.
pub open spec fn decoder_arguments(use_cuvid: bool) -> Seq<Seq<char>> {
    seq![
        "-hide_banner"@,
        "-loglevel"@,
        "warning"@,
        "-fflags"@,
        "nobuffer"@,
        "-flags"@,
        "low_delay"@,
        "-c:v"@,
        if use_cuvid {
            "h264_cuvid"@
        } else {
            "h264"@
        },
        "-f"@,
        "h264"@,
        "-i"@,
        "pipe:0"@,
        "-an"@,
        "-f"@,
        "rawvideo"@,
        "-pix_fmt"@,
        "bgra"@,
        "pipe:1"@,
    ]
}

/// The command line of the decoder, as [`decoder_arguments`] gives it.
pub fn decoder_args(use_cuvid: bool) -> (args: Vec<String>)
    ensures
        texts(args@) == decoder_arguments(use_cuvid),
{
    let mut args: Vec<String> = Vec::new();
    push_text(&mut args, "-hide_banner");
    push_text(&mut args, "-loglevel");
    push_text(&mut args, "warning");
    push_text(&mut args, "-fflags");
    push_text(&mut args, "nobuffer");
    push_text(&mut args, "-flags");
    push_text(&mut args, "low_delay");
    push_text(&mut args, "-c:v");
    if use_cuvid {
        push_text(&mut args, "h264_cuvid");
    } else {
        push_text(&mut args, "h264");
    }
    push_text(&mut args, "-f");
    push_text(&mut args, "h264");
    push_text(&mut args, "-i");
    push_text(&mut args, "pipe:0");
    push_text(&mut args, "-an");
    push_text(&mut args, "-f");
    push_text(&mut args, "rawvideo");
    push_text(&mut args, "-pix_fmt");
    push_text(&mut args, "bgra");
    push_text(&mut args, "pipe:1");
    proof {
        assert(texts(args@) =~= decoder_arguments(use_cuvid));
    }
    args
}

/// Whether `needle` occurs in `hay` starting at position `i`.
pub open spec fn occurs_at(hay: Seq<u8>, needle: Seq<u8>, i: int) -> bool {
    0 <= i && i + needle.len() <= hay.len() && hay.subrange(i, i + needle.len()) == needle
}

/// Whether the bytes `needle` occur in `hay`.
pub fn contains_bytes(hay: &[u8], needle: &[u8]) -> (found: bool)
    ensures
        found == exists|i: int| occurs_at(hay@, needle@, i),
{
    let n = hay.len();
    if needle.len() > n {
        return false;
    }
    let mut i: usize = 0;
    while i <= n - needle.len()
        invariant
            n == hay@.len(),
            needle@.len() <= hay@.len(),
            i <= hay@.len() - needle@.len() + 1,
            forall|k: int| 0 <= k < i ==> !occurs_at(hay@, needle@, k),
        decreases hay@.len() - needle@.len() + 1 - i,
    {
        let mut j: usize = 0;
        let mut same = true;
        while j < needle.len()
            invariant
                n == hay@.len(),
                needle@.len() <= hay@.len(),
                i <= hay@.len() - needle@.len(),
                j <= needle@.len(),
                same == forall|m: int| 0 <= m < j ==> hay@[i + m] == needle@[m],
            decreases needle@.len() - j,
        {
            assert(i + j < hay@.len());
            if hay[i + j] != needle[j] {
                same = false;
            }
            j = j + 1;
        }
        if same {
            proof {
                assert(hay@.subrange(i as int, i + needle@.len()) =~= needle@);
                assert(occurs_at(hay@, needle@, i as int));
            }
            return true;
        }
        proof {
            if occurs_at(hay@, needle@, i as int) {
                assert forall|m: int| 0 <= m < needle@.len() implies hay@[i + m] == needle@[m] by {
                    assert(hay@.subrange(i as int, i + needle@.len())[m] == hay@[i + m]);
                }
            }
        }
        i = i + 1;
    }
    proof {
        assert forall|k: int| !occurs_at(hay@, needle@, k) by {
            if 0 <= k < i {
            }
        }
    }
    false
}

/// Whether FFmpeg's list of encoders or decoders names `codec`: whether the
/// codec's UTF-8 bytes occur in those of the list.
pub fn lists_codec(listing: &str, codec: &str) -> (listed: bool)
    ensures
        listed == exists|i: int| occurs_at(utf8(listing@), utf8(codec@), i),
{
    let hay = listing.as_bytes();
    let needle = codec.as_bytes();
    proof {
        assert(hay@ == utf8(listing@));
        assert(needle@ == utf8(codec@));
    }
    contains_bytes(hay, needle)
}

/// What is written to the decoder for one NAL unit: the four-byte start
/// code, then the unit.
pub fn annexb_unit(data: &[u8]) -> (out: Vec<u8>)
    ensures
        out@ == seq![0u8, 0u8, 0u8, 1u8] + data@,
{
    let mut out: Vec<u8> = Vec::new();
    out.push(0);
    out.push(0);
    out.push(0);
    out.push(1);
    put_bytes(&mut out, data);
    proof {
        assert(out@ =~= seq![0u8, 0u8, 0u8, 1u8] + data@);
    }
    out
}

/// The size of one raw BGRA frame: four bytes per pixel.
pub fn raw_frame_size(width: usize, height: usize) -> (size: usize)
    requires
        width * height * 4 <= usize::MAX,
    ensures
        size == width * height * 4,
{
    proof {
        assert(width * height <= width * height * 4) by (nonlinear_arith);
    }
    width * height * 4
}

/// What the encoder's writer does with a raw frame it receives.
#[derive(Debug, Clone, Copy, PartialEq, Eq, Structural)]
pub enum WriterAction {
    /// Hand the frame's bytes to the encoder.
    Write,
    /// Skip the frame: its size is not the encoder's.
    Drop,
    /// Stop writing: broadcasting has ended.
    Stop,
}

/// The writer's decision for a frame of `frame_width` x `frame_height`
/// pixels holding `data_len` bytes, for an encoder of `width` x `height`:
/// stop once broadcasting has ended, drop a frame whose dimensions or byte
/// count (four bytes per pixel) differ, and write the rest.
pub fn writer_step(
    streaming: bool,
    frame_width: usize,
    frame_height: usize,
    data_len: usize,
    width: usize,
    height: usize,
) -> (a: WriterAction)
    ensures
        a == (if !streaming {
            WriterAction::Stop
        } else if frame_width != width || frame_height != height || data_len != width * height
            * 4 {
            WriterAction::Drop
        } else {
            WriterAction::Write
        }),
{
    if !streaming {
        return WriterAction::Stop;
    }
    if frame_width != width || frame_height != height {
        return WriterAction::Drop;
    }
    let expected = match width.checked_mul(height) {
        Some(pixels) => pixels.checked_mul(4),
        None => None,
    };
    match expected {
        Some(size) => {
            if data_len != size {
                WriterAction::Drop
            } else {
                WriterAction::Write
            }
        },
        None => {
            proof {
                if width * height <= usize::MAX {
                    assert(width * height * 4 > usize::MAX);
                } else {
                    assert(width * height <= width * height * 4) by (nonlinear_arith);
                }
            }
            WriterAction::Drop
        },
    }
}

/// The first character of a number written in decimal is a digit.
proof fn lemma_decimal_starts_with_digit(n: nat)
    ensures
        decimal(n).len() >= 1,
        '0' <= decimal(n)[0] <= '9',
    decreases n,
{
    if n >= 10 {
        lemma_decimal_starts_with_digit(n / 10);
    }
}

/// Each rate option of the encoder's command line stands once, at its
/// place, and no other argument is one of them.
proof fn lemma_rate_options(width: nat, height: nat, fps: nat, bitrate_kbps: nat)
    ensures
        ({
            let a = encoder_arguments(width, height, fps, bitrate_kbps);
            &&& a.len() == 39
            &&& forall|i: int| 0 <= i < a.len() && #[trigger] a[i] == "-b:v"@ ==> i == 22
            &&& forall|i: int| 0 <= i < a.len() && #[trigger] a[i] == "-maxrate"@ ==> i == 24
            &&& forall|i: int| 0 <= i < a.len() && #[trigger] a[i] == "-bufsize"@ ==> i == 26
        }),
{
    let a = encoder_arguments(width, height, fps, bitrate_kbps);
        reveal_strlit("-hide_banner");
        reveal_strlit("-loglevel");
        reveal_strlit("warning");
        reveal_strlit("-f");
        reveal_strlit("rawvideo");
        reveal_strlit("-pix_fmt");
        reveal_strlit("bgra");
        reveal_strlit("-video_size");
        reveal_strlit("-framerate");
        reveal_strlit("-i");
        reveal_strlit("pipe:0");
        reveal_strlit("-an");
        reveal_strlit("-c:v");
        reveal_strlit("h264_nvenc");
        reveal_strlit("-preset");
        reveal_strlit("p1");
        reveal_strlit("-tune");
        reveal_strlit("ull");
        reveal_strlit("-rc");
        reveal_strlit("cbr");
        reveal_strlit("-b:v");
        reveal_strlit("-maxrate");
        reveal_strlit("-bufsize");
        reveal_strlit("-g");
        reveal_strlit("-keyint_min");
        reveal_strlit("-bf");
        reveal_strlit("0");
        reveal_strlit("-forced-idr");
        reveal_strlit("1");
        reveal_strlit("h264");
        reveal_strlit("pipe:1");
        reveal_strlit("k");
        reveal_strlit("x");
    lemma_decimal_starts_with_digit(width);
    lemma_decimal_starts_with_digit(fps);
    lemma_decimal_starts_with_digit(bitrate_kbps);
    lemma_decimal_starts_with_digit(bitrate_kbps * 2);
    lemma_decimal_starts_with_digit(fps * 2);
    assert(size_text(width, height)[0] == decimal(width)[0]);
    assert(kilobits(bitrate_kbps)[0] == decimal(bitrate_kbps)[0]);
    assert(kilobits(bitrate_kbps * 2)[0] == decimal(bitrate_kbps * 2)[0]);
    assert forall|i: int| 0 <= i < a.len() && #[trigger] a[i] == "-b:v"@ implies i == 22 by {
        assert(a[i].len() == 4 && a[i][0] == '-' && a[i][1] == 'b' && a[i][2] == ':');
    }
    assert forall|i: int| 0 <= i < a.len() && #[trigger] a[i] == "-maxrate"@ implies i == 24 by {
        assert(a[i].len() == 8 && a[i][0] == '-' && a[i][1] == 'm');
    }
    assert forall|i: int| 0 <= i < a.len() && #[trigger] a[i] == "-bufsize"@ implies i == 26 by {
        assert(a[i].len() == 8 && a[i][0] == '-' && a[i][1] == 'b');
    }
}

/// The encoder runs at the bit rate it is given, in kilobits a second:
/// wherever `-b:v` or `-maxrate` stands on its command line, the next
/// argument is that rate in decimal followed by `k`, so the two agree, and
/// the next after `-bufsize` is twice the rate, written the same way. Each of
/// the three options is there.
pub proof fn encoder_rates_are_kilobits(width: nat, height: nat, fps: nat, bitrate_kbps: nat)
    ensures
        ({
            let a = encoder_arguments(width, height, fps, bitrate_kbps);
            &&& a.contains("-b:v"@)
            &&& a.contains("-maxrate"@)
            &&& a.contains("-bufsize"@)
            &&& forall|i: int|
                0 <= i < a.len() - 1 && (#[trigger] a[i] == "-b:v"@ || a[i] == "-maxrate"@) ==> a[i
                    + 1] == decimal(bitrate_kbps) + seq!['k']
            &&& forall|i: int|
                0 <= i < a.len() - 1 && #[trigger] a[i] == "-bufsize"@ ==> a[i + 1] == decimal(
                    2 * bitrate_kbps,
                ) + seq!['k']
        }),
{
    let a = encoder_arguments(width, height, fps, bitrate_kbps);
    lemma_rate_options(width, height, fps, bitrate_kbps);
    reveal_strlit("k");
    reveal_strlit("-b:v");
    reveal_strlit("-maxrate");
    reveal_strlit("-bufsize");
    assert("k"@ =~= seq!['k']);
    assert(a[22] == "-b:v"@);
    assert(a[24] == "-maxrate"@);
    assert(a[26] == "-bufsize"@);
    assert(bitrate_kbps * 2 == 2 * bitrate_kbps);
}

/// The screen capture encodes at the bit rate it is given, in kilobits a
/// second: wherever `-b:v` stands on its command line, the next argument is
/// that rate in decimal followed by `k`, and the option is there.
pub proof fn capture_rate_is_kilobits(width: nat, height: nat, fps: nat, bitrate_kbps: nat)
    ensures
        ({
            let a = capture_arguments(width, height, fps, bitrate_kbps);
            &&& a.contains("-b:v"@)
            &&& forall|i: int|
                0 <= i < a.len() - 1 && #[trigger] a[i] == "-b:v"@ ==> a[i + 1] == decimal(
                    bitrate_kbps,
                ) + seq!['k']
        }),
{
    let a = capture_arguments(width, height, fps, bitrate_kbps);
    reveal_strlit("-hide_banner");
    reveal_strlit("-loglevel");
    reveal_strlit("warning");
    reveal_strlit("-f");
    reveal_strlit("lavfi");
    reveal_strlit("-i");
    reveal_strlit("ddagrab=output_idx=0:framerate=");
    reveal_strlit("-c:v");
    reveal_strlit("h264_nvenc");
    reveal_strlit("-preset");
    reveal_strlit("p4");
    reveal_strlit("-tune");
    reveal_strlit("ll");
    reveal_strlit("-zerolatency");
    reveal_strlit("1");
    reveal_strlit("-bf");
    reveal_strlit("0");
    reveal_strlit("-g");
    reveal_strlit("-keyint_min");
    reveal_strlit("-forced-idr");
    reveal_strlit("-b:v");
    reveal_strlit("-bsf:v");
    reveal_strlit("h264_metadata=aud=insert");
    reveal_strlit("h264");
    reveal_strlit("pipe:1");
    reveal_strlit("k");
    lemma_decimal_starts_with_digit(fps * 2);
    lemma_decimal_starts_with_digit(bitrate_kbps);
    assert(capture_filter(width, height, fps)[0] == 'd');
    assert(kilobits(bitrate_kbps)[0] == decimal(bitrate_kbps)[0]);
    assert("k"@ =~= seq!['k']);
    assert forall|i: int| 0 <= i < a.len() - 1 && #[trigger] a[i] == "-b:v"@ implies a[i + 1]
        == decimal(bitrate_kbps) + seq!['k'] by {
        assert(a[i].len() == 4 && a[i][0] == '-' && a[i][1] == 'b' && a[i][2] == ':');
        assert(i == 23);
    }
    assert(a[23] == "-b:v"@);
}

} // verus!
