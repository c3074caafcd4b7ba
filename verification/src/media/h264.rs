//! Cutting the H.264 byte stream an encoder writes into NAL units, as the
//! bytes arrive, and wrapping each unit as an encoded frame.
use vstd::prelude::*;
use crate::media::annexb::{
    contains_idr, find_next_frame, find_start_code, frame_delimiters_from, idr_from, nal_type,
    start_code_at, start_code_length, start3, start4, NAL_AUD, NAL_IDR,
};
use crate::media::encoder::{EncodedFrame, EncodedFrameV};
use crate::protocol::video::VideoCodec;

verus! {

/// The first position at or after `i` where a start code begins.
pub open spec fn first_start(b: Seq<u8>, i: int) -> Option<int>
    decreases b.len() - i,
{
    if i < 0 || i + 3 > b.len() {
        None
    } else if start_code_at(b, i) != 0 {
        Some(i)
    } else {
        first_start(b, i + 1)
    }
}

pub proof fn lemma_first_start_bounds(b: Seq<u8>, i: int)
    ensures
        first_start(b, i) matches Some(k) ==> i <= k && k + 3 <= b.len() && start_code_at(b, k)
            != 0,
    decreases b.len() - i,
{
    if !(i < 0 || i + 3 > b.len()) && start_code_at(b, i) == 0 {
        lemma_first_start_bounds(b, i + 1);
    }
}

proof fn lemma_first_start_found(b: Seq<u8>, from: int, i: int)
    requires
        0 <= from <= i,
        start_code_at(b, i) != 0,
        forall|j: int| from <= j < i ==> start_code_at(b, j) == 0,
    ensures
        first_start(b, from) == Some(i),
    decreases i - from,
{
    if from < i {
        lemma_first_start_found(b, from + 1, i);
    }
}

proof fn lemma_first_start_none(b: Seq<u8>, from: int)
    requires
        0 <= from,
        forall|j: int| from <= j ==> start_code_at(b, j) == 0,
    ensures
        first_start(b, from) is None,
    decreases b.len() - from,
{
    if from + 3 <= b.len() {
        lemma_first_start_none(b, from + 1);
    }
}

pub proof fn lemma_start_code_shift(b: Seq<u8>, f: int)
    requires
        0 <= f <= b.len(),
    ensures
        start_code_at(b.skip(f), 0) == start_code_at(b, f),
{
    let c = b.skip(f);
    assert(start4(c, 0) == start4(b, f));
    assert(start3(c, 0) == start3(b, f));
}

/// The NAL units that can be taken off the front of the stream bytes `b`,
/// and the bytes kept for later. A unit runs from just after a start code to
/// the next start code; bytes before the first start code are dropped, empty
/// units are skipped, and the last unit is kept until the start code after
/// it has arrived. Without any start code, only the last four bytes are
/// kept, in case a start code is split between two reads.
pub open spec fn split_nal_units(b: Seq<u8>) -> (Seq<Seq<u8>>, Seq<u8>)
    decreases b.len(),
{
    match first_start(b, 0) {
        None => (Seq::empty(), if b.len() > 4 {
            b.skip(b.len() - 4)
        } else {
            b
        }),
        Some(f) => {
            let c = b.skip(f);
            let l = start_code_at(c, 0);
            match first_start(c, l) {
                None => (Seq::empty(), c),
                Some(n) => {
                    proof {
                        lemma_first_start_bounds(b, 0);
                        lemma_start_code_shift(b, f);
                        lemma_first_start_bounds(c, l);
                    }
                    let unit = c.subrange(l, n);
                    let rest = split_nal_units(c.skip(n));
                    (if unit.len() == 0 {
                        rest.0
                    } else {
                        seq![unit] + rest.0
                    }, rest.1)
                },
            }
        },
    }
}

/// The contents of a list of byte vectors.
pub open spec fn byte_strings(v: Seq<Vec<u8>>) -> Seq<Seq<u8>> {
    v.map_values(|x: Vec<u8>| x@)
}

/// Takes every complete NAL unit off the front of `buffer`, in order, and
/// leaves in `buffer` the bytes to keep for the next read.
pub fn drain_nal_units(buffer: &mut Vec<u8>) -> (units: Vec<Vec<u8>>)
    ensures
        byte_strings(units@) == split_nal_units(old(buffer)@).0,
        final(buffer)@ == split_nal_units(old(buffer)@).1,
{
    let ghost whole = buffer@;
    let mut units: Vec<Vec<u8>> = Vec::new();
    loop
        invariant_except_break
            split_nal_units(whole).0 == byte_strings(units@) + split_nal_units(buffer@).0,
            split_nal_units(whole).1 == split_nal_units(buffer@).1,
        ensures
            split_nal_units(whole).0 == byte_strings(units@),
            split_nal_units(whole).1 == buffer@,
        decreases buffer@.len(),
    {
        let ghost b = buffer@;
        let first = match find_start_code(buffer.as_slice(), 0) {
            Some(f) => f,
            None => {
                proof {
                    lemma_first_start_none(b, 0);
                    assert(byte_strings(units@) + Seq::<Seq<u8>>::empty() =~= byte_strings(units@));
                }
                if buffer.len() > 4 {
                    let keep = vstd::slice::slice_to_vec(&buffer.as_slice()[buffer.len() - 4..buffer.len()]);
                    *buffer = keep;
                    proof {
                        assert(buffer@ =~= b.skip(b.len() - 4));
                    }
                }
                break ;
            },
        };
        proof {
            lemma_first_start_found(b, 0, first as int);
        }
        let c = vstd::slice::slice_to_vec(&buffer.as_slice()[first..buffer.len()]);
        *buffer = c;
        proof {
            assert(buffer@ =~= b.skip(first as int));
            lemma_start_code_shift(b, first as int);
        }
        let start_len = match start_code_length(buffer.as_slice()) {
            Some(l) => l,
            None => {
                proof {
                    assert(false);
                }
                break ;
            },
        };
        let next = match find_start_code(buffer.as_slice(), start_len) {
            Some(n) => n,
            None => {
                proof {
                    lemma_first_start_none(buffer@, start_len as int);
                    assert(byte_strings(units@) + Seq::<Seq<u8>>::empty() =~= byte_strings(units@));
                }
                break ;
            },
        };
        proof {
            lemma_first_start_found(buffer@, start_len as int, next as int);
        }
        let ghost cb = buffer@;
        let unit = vstd::slice::slice_to_vec(&buffer.as_slice()[start_len..next]);
        let rest = vstd::slice::slice_to_vec(&buffer.as_slice()[next..buffer.len()]);
        *buffer = rest;
        proof {
            assert(unit@ =~= cb.subrange(start_len as int, next as int));
            assert(buffer@ =~= cb.skip(next as int));
        }
        if unit.len() > 0 {
            let ghost before = units@;
            units.push(unit);
            proof {
                assert(byte_strings(units@) =~= byte_strings(before) + seq![cb.subrange(
                    start_len as int,
                    next as int,
                )]);
                assert(byte_strings(before) + (seq![cb.subrange(start_len as int, next as int)]
                    + split_nal_units(buffer@).0) =~= byte_strings(units@) + split_nal_units(
                    buffer@,
                ).0);
            }
        }
    }
    units
}

/// Wraps one NAL unit as an encoded frame of `width` by `height` pixels: it
/// is a keyframe exactly when it is an IDR slice.
pub fn nal_frame(sequence: u64, timestamp: u64, width: usize, height: usize, unit: Vec<u8>) -> (frame:
    EncodedFrame)
    requires
        unit@.len() > 0,
    ensures
        frame@ == (EncodedFrameV {
            sequence,
            timestamp,
            keyframe: nal_type(unit@[0]) == NAL_IDR,
            codec: VideoCodec::H264,
            width,
            height,
            data: unit@,
        }),
{
    let keyframe = (unit[0] & 0x1f) == NAL_IDR;
    EncodedFrame { sequence, timestamp, keyframe, codec: VideoCodec::H264, width, height, data: unit }
}

/// The positions the walk of [`frame_delimiters_from`] gives lie in `b`,
/// at or after `i`, in increasing order.
pub proof fn lemma_frame_delimiters_ordered(b: Seq<u8>, i: int)
    ensures
        forall|k: int|
            0 <= k < frame_delimiters_from(b, i).len() ==> i <= #[trigger] frame_delimiters_from(
                b,
                i,
            )[k] < b.len(),
        forall|k: int, j: int|
            0 <= k < j < frame_delimiters_from(b, i).len() ==> #[trigger] frame_delimiters_from(
                b,
                i,
            )[k] < #[trigger] frame_delimiters_from(b, i)[j],
    decreases b.len() - i,
{
    if i < 0 || i + 3 >= b.len() {
    } else {
        let l = start_code_at(b, i);
        let d = frame_delimiters_from(b, i);
        if l == 0 {
            assert(d == frame_delimiters_from(b, i + 1));
            lemma_frame_delimiters_ordered(b, i + 1);
        } else if i + l >= b.len() {
            assert(d.len() == 0);
        } else {
            let rest = frame_delimiters_from(b, i + l);
            lemma_frame_delimiters_ordered(b, i + l);
            if nal_type(b[i + l]) == NAL_AUD {
                assert(d == seq![i] + rest);
                assert forall|k: int| 0 <= k < d.len() implies i <= #[trigger] d[k] < b.len() by {
                    if k > 0 {
                        assert(d[k] == rest[k - 1]);
                    }
                }
                assert forall|k: int, j: int| 0 <= k < j < d.len() implies #[trigger] d[k]
                    < #[trigger] d[j] by {
                    if k > 0 {
                        assert(d[k] == rest[k - 1]);
                    }
                    assert(d[j] == rest[j - 1]);
                }
            } else {
                assert(d == rest);
            }
        }
    }
}

/// The access units that can be taken off the front of the stream bytes
/// `b`, and the bytes kept for later: each unit runs from the start of the
/// buffer up to its second access unit delimiter.
pub open spec fn split_access_units(b: Seq<u8>) -> (Seq<Seq<u8>>, Seq<u8>)
    decreases b.len(),
{
    let d = frame_delimiters_from(b, 0);
    if d.len() >= 2 {
        proof {
            lemma_frame_delimiters_ordered(b, 0);
            assert(0 <= d[0] < d[1] < b.len());
        }
        let end = d[1];
        let rest = split_access_units(b.skip(end));
        (seq![b.take(end)] + rest.0, rest.1)
    } else {
        (Seq::empty(), b)
    }
}

/// Takes every complete access unit off the front of `buffer`, in order,
/// and leaves in `buffer` the bytes of the unit still arriving.
pub fn drain_access_units(buffer: &mut Vec<u8>) -> (units: Vec<Vec<u8>>)
    ensures
        byte_strings(units@) == split_access_units(old(buffer)@).0,
        final(buffer)@ == split_access_units(old(buffer)@).1,
{
    let ghost whole = buffer@;
    let mut units: Vec<Vec<u8>> = Vec::new();
    loop
        invariant_except_break
            split_access_units(whole).0 == byte_strings(units@) + split_access_units(buffer@).0,
            split_access_units(whole).1 == split_access_units(buffer@).1,
        ensures
            split_access_units(whole).0 == byte_strings(units@),
            split_access_units(whole).1 == buffer@,
        decreases buffer@.len(),
    {
        let ghost b = buffer@;
        let end = match find_next_frame(buffer.as_slice()) {
            Some(e) => e,
            None => {
                proof {
                    assert(byte_strings(units@) + Seq::<Seq<u8>>::empty() =~= byte_strings(units@));
                }
                break ;
            },
        };
        proof {
            lemma_frame_delimiters_ordered(b, 0);
            let d = frame_delimiters_from(b, 0);
            assert(0 <= d[0] < d[1] < b.len());
        }
        let data = vstd::slice::slice_to_vec(&buffer.as_slice()[0..end]);
        let rest = vstd::slice::slice_to_vec(&buffer.as_slice()[end..buffer.len()]);
        *buffer = rest;
        proof {
            assert(data@ =~= b.take(end as int));
            assert(buffer@ =~= b.skip(end as int));
        }
        if data.len() > 0 {
            let ghost before = units@;
            units.push(data);
            proof {
                assert(byte_strings(units@) =~= byte_strings(before) + seq![b.take(end as int)]);
                assert(byte_strings(before) + (seq![b.take(end as int)] + split_access_units(
                    buffer@,
                ).0) =~= byte_strings(units@) + split_access_units(buffer@).0);
            }
        }
    }
    units
}

/// Wraps one access unit of a capture at `fps` frames a second as encoded
/// frame number `sequence`: its timestamp is the frame number times the
/// frame duration in whole milliseconds, and it is a keyframe when it holds
/// an IDR slice.
pub fn access_unit_frame(sequence: u64, fps: u32, width: u32, height: u32, data: Vec<u8>) -> (frame:
    EncodedFrame)
    requires
        fps > 0,
        sequence * (1000int / (fps as int)) <= u64::MAX,
    ensures
        frame@ == (EncodedFrameV {
            sequence,
            timestamp: (sequence * (1000int / (fps as int))) as u64,
            keyframe: idr_from(data@, 0),
            codec: VideoCodec::H264,
            width: width as usize,
            height: height as usize,
            data: data@,
        }),
{
    let frame_duration_ms = 1000 / fps as u64;
    let keyframe = contains_idr(data.as_slice());
    EncodedFrame {
        sequence,
        timestamp: sequence * frame_duration_ms,
        keyframe,
        codec: VideoCodec::H264,
        width: width as usize,
        height: height as usize,
        data,
    }
}

proof fn lemma_start_code_skip(b: Seq<u8>, k: int, j: int)
    requires
        0 <= k <= b.len(),
        0 <= j,
    ensures
        start_code_at(b.skip(k), j) == start_code_at(b, j + k),
{
    let c = b.skip(k);
    assert(start4(c, j) == start4(b, j + k));
    assert(start3(c, j) == start3(b, j + k));
}

proof fn lemma_first_start_none_all(b: Seq<u8>, i: int)
    requires
        0 <= i,
        first_start(b, i) is None,
    ensures
        forall|j: int| i <= j ==> start_code_at(b, j) == 0,
    decreases b.len() - i,
{
    if i + 3 <= b.len() {
        lemma_first_start_none_all(b, i + 1);
    }
}

/// The bytes kept after the NAL units are taken off a buffer give no unit,
/// and are kept as they are, until more bytes arrive.
pub proof fn nal_remainder_is_stable(b: Seq<u8>)
    ensures
        split_nal_units(split_nal_units(b).1) == (Seq::<Seq<u8>>::empty(), split_nal_units(b).1),
    decreases b.len(),
{
    match first_start(b, 0) {
        None => {
            lemma_first_start_none_all(b, 0);
            if b.len() > 4 {
                let k = b.len() - 4;
                let rem = b.skip(k);
                assert forall|j: int| 0 <= j implies start_code_at(rem, j) == 0 by {
                    lemma_start_code_skip(b, k, j);
                }
                lemma_first_start_none(rem, 0);
            }
        },
        Some(f) => {
            lemma_first_start_bounds(b, 0);
            lemma_start_code_shift(b, f);
            let c = b.skip(f);
            let l = start_code_at(c, 0);
            assert(first_start(c, 0) == Some(0int));
            assert(c.skip(0) =~= c);
            match first_start(c, l) {
                None => {},
                Some(n) => {
                    lemma_first_start_bounds(c, l);
                    nal_remainder_is_stable(c.skip(n));
                },
            }
        },
    }
}

/// The bytes kept after the access units are taken off a buffer give no
/// unit, and are kept as they are, until more bytes arrive.
pub proof fn access_unit_remainder_is_stable(b: Seq<u8>)
    ensures
        split_access_units(split_access_units(b).1) == (
            Seq::<Seq<u8>>::empty(),
            split_access_units(b).1,
        ),
    decreases b.len(),
{
    let d = frame_delimiters_from(b, 0);
    if d.len() >= 2 {
        lemma_frame_delimiters_ordered(b, 0);
        assert(0 <= d[0] < d[1] < b.len());
        access_unit_remainder_is_stable(b.skip(d[1]));
    }
}

/// Whether a received frame is a parameter set (an SPS or a PPS NAL unit),
/// which the decoder must be given even when it is behind; other frames may
/// be dropped then.
pub fn is_parameter_set(frame: &EncodedFrame) -> (param: bool)
    ensures
        param == (frame.data@.len() > 0 && (nal_type(frame.data@[0]) == 7 || nal_type(
            frame.data@[0],
        ) == 8)),
{
    if frame.data.len() == 0 {
        return false;
    }
    let t = frame.data[0] & 0x1f;
    t == 7 || t == 8
}

} // verus!
