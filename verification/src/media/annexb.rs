//! Start codes and NAL units of an H.264 Annex-B byte stream.
use vstd::prelude::*;

verus! {

/// Whether the four-byte start code 00 00 00 01 begins at `i`.
pub open spec fn start4(b: Seq<u8>, i: int) -> bool {
    0 <= i && i + 4 <= b.len() && b[i] == 0 && b[i + 1] == 0 && b[i + 2] == 0 && b[i + 3] == 1
}

/// Whether the three-byte start code 00 00 01 begins at `i`.
pub open spec fn start3(b: Seq<u8>, i: int) -> bool {
    0 <= i && i + 3 <= b.len() && b[i] == 0 && b[i + 1] == 0 && b[i + 2] == 1
}

/// The length of the start code at `i`, preferring the four-byte one; 0
/// when none begins there.
pub open spec fn start_code_at(b: Seq<u8>, i: int) -> int {
    if start4(b, i) {
        4
    } else if start3(b, i) {
        3
    } else {
        0
    }
}

/// The type of the NAL unit whose header byte is `h`.
pub open spec fn nal_type(h: u8) -> u8 {
    h & 0x1fu8
}

/// The NAL type of an access unit delimiter.
pub const NAL_AUD: u8 = 9;

/// The NAL type of an IDR slice.
pub const NAL_IDR: u8 = 5;

/// The start codes met when walking `b` from `i` and skipping over each
/// start code found, that precede an access unit delimiter; a start code
/// at the very end introduces no unit.
pub open spec fn delimiters_from(b: Seq<u8>, i: int) -> Seq<int>
    decreases b.len() - i,
{
    if i < 0 || i + 3 > b.len() {
        seq![]
    } else {
        let l = start_code_at(b, i);
        if l == 0 {
            delimiters_from(b, i + 1)
        } else if i + l < b.len() && nal_type(b[i + l]) == NAL_AUD {
            seq![i] + delimiters_from(b, i + l)
        } else {
            delimiters_from(b, i + l)
        }
    }
}

/// The start codes met when walking `b` from `i` while more than three
/// bytes remain, skipping over each start code found and stopping at a
/// start code that ends the buffer, that precede an access unit delimiter.
pub open spec fn frame_delimiters_from(b: Seq<u8>, i: int) -> Seq<int>
    decreases b.len() - i,
{
    if i < 0 || i + 3 >= b.len() {
        seq![]
    } else {
        let l = start_code_at(b, i);
        if l == 0 {
            frame_delimiters_from(b, i + 1)
        } else if i + l >= b.len() {
            seq![]
        } else if nal_type(b[i + l]) == NAL_AUD {
            seq![i] + frame_delimiters_from(b, i + l)
        } else {
            frame_delimiters_from(b, i + l)
        }
    }
}

/// Whether the same walk as [`frame_delimiters_from`] meets an IDR slice.
pub open spec fn idr_from(b: Seq<u8>, i: int) -> bool
    decreases b.len() - i,
{
    if i < 0 || i + 3 >= b.len() {
        false
    } else {
        let l = start_code_at(b, i);
        if l == 0 {
            idr_from(b, i + 1)
        } else if i + l >= b.len() {
            false
        } else if nal_type(b[i + l]) == NAL_IDR {
            true
        } else {
            idr_from(b, i + l)
        }
    }
}

/// The header positions of the NAL units met when walking `b` from `i`
/// while more than three bytes remain: at each start code the unit's header
/// byte follows it, and the walk goes on from that header; a start code that
/// ends the buffer ends the walk.
pub open spec fn units_from(b: Seq<u8>, i: int) -> Seq<int>
    decreases b.len() - i,
{
    if i < 0 || i + 3 >= b.len() {
        seq![]
    } else {
        let l = start_code_at(b, i);
        if l == 0 {
            units_from(b, i + 1)
        } else if i + l >= b.len() {
            seq![]
        } else {
            seq![i + l] + units_from(b, i + l)
        }
    }
}

/// Every unit the walk meets has its header byte inside the buffer, right
/// after a start code that begins at or after the walk's start.
pub proof fn units_follow_start_codes(b: Seq<u8>, i: int)
    ensures
        forall|j: int|
            0 <= j < units_from(b, i).len() ==> {
                let k = #[trigger] units_from(b, i)[j];
                &&& 0 <= i < k < b.len()
                &&& (start4(b, k - 4) || start3(b, k - 3))
            },
    decreases b.len() - i,
{
    if i < 0 || i + 3 >= b.len() {
    } else {
        let l = start_code_at(b, i);
        if l == 0 {
            units_follow_start_codes(b, i + 1);
            assert(units_from(b, i) == units_from(b, i + 1));
        } else if i + l >= b.len() {
        } else {
            units_follow_start_codes(b, i + l);
            let u = units_from(b, i);
            let rest = units_from(b, i + l);
            assert(u == seq![i + l] + rest);
            assert forall|j: int| 0 <= j < u.len() implies {
                let k = #[trigger] u[j];
                &&& 0 <= i < k < b.len()
                &&& (start4(b, k - 4) || start3(b, k - 3))
            } by {
                if j > 0 {
                    assert(u[j] == rest[j - 1]);
                } else if l == 4 {
                    assert(start4(b, i));
                } else {
                    assert(start3(b, i));
                }
            }
        }
    }
}

/// Whether one of the units in `u` is an IDR slice.
pub open spec fn has_idr_unit(b: Seq<u8>, u: Seq<int>) -> bool {
    exists|j: int| 0 <= j < u.len() && nal_type(b[#[trigger] u[j]]) == NAL_IDR
}

/// An access unit holds an IDR slice exactly when one of the NAL units its
/// walk meets is of type 5; no other unit type decides the answer.
pub proof fn idr_iff_some_unit_is_idr(b: Seq<u8>, i: int)
    ensures
        idr_from(b, i) <==> has_idr_unit(b, units_from(b, i)),
    decreases b.len() - i,
{
    if i < 0 || i + 3 >= b.len() {
    } else {
        let l = start_code_at(b, i);
        if l == 0 {
            idr_iff_some_unit_is_idr(b, i + 1);
        } else if i + l >= b.len() {
        } else {
            idr_iff_some_unit_is_idr(b, i + l);
            let u = units_from(b, i);
            let rest = units_from(b, i + l);
            assert(u == seq![i + l] + rest);
            assert(u[0] == i + l);
            if has_idr_unit(b, rest) {
                let j = choose|j: int| 0 <= j < rest.len() && nal_type(b[#[trigger] rest[j]]) == NAL_IDR;
                assert(u[j + 1] == rest[j]);
                assert(has_idr_unit(b, u));
            }
            if has_idr_unit(b, u) && nal_type(b[i + l]) != NAL_IDR {
                let j = choose|j: int| 0 <= j < u.len() && nal_type(b[#[trigger] u[j]]) == NAL_IDR;
                assert(j > 0);
                assert(rest[j - 1] == u[j]);
                assert(has_idr_unit(b, rest));
            }
        }
    }
}

/// The length of the start code at `data[at..]`, preferring four bytes.
fn start_code_len_at(data: &[u8], at: usize) -> (l: usize)
    requires
        at <= data@.len(),
    ensures
        l == start_code_at(data@, at as int),
{
    let n = data.len();
    if n - at >= 4 && data[at] == 0 && data[at + 1] == 0 && data[at + 2] == 0 && data[at + 3] == 1 {
        4
    } else if n - at >= 3 && data[at] == 0 && data[at + 1] == 0 && data[at + 2] == 1 {
        3
    } else {
        0
    }
}

/// The length of the start code that `data` begins with.
pub fn start_code_length(data: &[u8]) -> (res: Option<usize>)
    ensures
        res == (if start4(data@, 0) {
            Some(4usize)
        } else if start3(data@, 0) {
            Some(3usize)
        } else {
            None
        }),
{
    let l = start_code_len_at(data, 0);
    if l == 0 {
        None
    } else {
        Some(l)
    }
}

/// The first position at or after `from` where a start code begins.
pub fn find_start_code(data: &[u8], from: usize) -> (res: Option<usize>)
    requires
        data@.len() >= 3 ==> from <= usize::MAX - 3,
    ensures
        match res {
            Some(i) => from <= i && start_code_at(data@, i as int) != 0 && forall|j: int|
                from <= j < i ==> start_code_at(data@, j) == 0,
            None => forall|j: int| from <= j ==> start_code_at(data@, j) == 0,
        },
{
    if data.len() < 3 {
        return None;
    }
    let mut i = from;
    while i <= data.len() - 3
        invariant
            from <= i,
            data@.len() >= 3,
            forall|j: int| from <= j < i ==> start_code_at(data@, j) == 0,
        decreases data@.len() - i,
    {
        if start_code_len_at(data, i) != 0 {
            return Some(i);
        }
        i = i + 1;
    }
    None
}

/// Where the current access unit ends: at the second access unit
/// delimiter of the walk [`delimiters_from`] describes.
pub fn find_next_access_unit(buffer: &[u8]) -> (res: Option<usize>)
    ensures
        res == (if delimiters_from(buffer@, 0).len() >= 2 {
            Some(delimiters_from(buffer@, 0)[1] as usize)
        } else {
            None
        }),
{
    let mut positions: Vec<usize> = Vec::new();
    let mut i: usize = 0;
    let n = buffer.len();
    while n >= 3 && i <= n - 3
        invariant
            n == buffer@.len(),
            i <= n,
            positions@.map_values(|p: usize| p as int) + delimiters_from(buffer@, i as int)
                == delimiters_from(buffer@, 0),
            forall|k: int| 0 <= k < positions@.len() ==> positions@[k] < i,
        decreases n - i,
    {
        let l = start_code_len_at(buffer, i);
        if l == 0 {
            i = i + 1;
        } else {
            let nal_start = i + l;
            let ghost before = positions@;
            if nal_start < n && buffer[nal_start] & 0x1f == NAL_AUD {
                positions.push(i);
                assert(positions@.map_values(|p: usize| p as int) =~= before.map_values(
                    |p: usize| p as int,
                ).push(i as int));
                assert(seq![i as int] + delimiters_from(buffer@, nal_start as int)
                    == delimiters_from(buffer@, i as int));
                assert(before.map_values(|p: usize| p as int).push(i as int) + delimiters_from(
                    buffer@,
                    nal_start as int,
                ) =~= before.map_values(|p: usize| p as int) + (seq![i as int] + delimiters_from(
                    buffer@,
                    nal_start as int,
                )));
            }
            i = nal_start;
        }
    }
    assert(delimiters_from(buffer@, i as int) == Seq::<int>::empty());
    assert(positions@.map_values(|p: usize| p as int) =~= delimiters_from(buffer@, 0));
    if positions.len() >= 2 {
        Some(positions[1])
    } else {
        None
    }
}

/// Where the current access unit ends: at the second access unit
/// delimiter of the walk [`frame_delimiters_from`] describes.
pub fn find_next_frame(buffer: &[u8]) -> (res: Option<usize>)
    ensures
        res == (if frame_delimiters_from(buffer@, 0).len() >= 2 {
            Some(frame_delimiters_from(buffer@, 0)[1] as usize)
        } else {
            None
        }),
{
    let mut positions: Vec<usize> = Vec::new();
    let mut i: usize = 0;
    let n = buffer.len();
    while n > 3 && i < n - 3
        invariant
            n == buffer@.len(),
            i <= n,
            positions@.len() < 2,
            positions@.map_values(|p: usize| p as int) + frame_delimiters_from(buffer@, i as int)
                == frame_delimiters_from(buffer@, 0),
            forall|k: int| 0 <= k < positions@.len() ==> positions@[k] < i,
        decreases n - i,
    {
        let l = start_code_len_at(buffer, i);
        if l == 0 {
            i = i + 1;
        } else {
            let nal_start = i + l;
            if nal_start >= n {
                assert(frame_delimiters_from(buffer@, i as int) == Seq::<int>::empty());
                assert(positions@.map_values(|p: usize| p as int) =~= frame_delimiters_from(
                    buffer@,
                    0,
                ));
                return None;
            }
            if buffer[nal_start] & 0x1f == NAL_AUD {
                let ghost before = positions@;
                positions.push(i);
                assert(positions@.map_values(|p: usize| p as int) =~= before.map_values(
                    |p: usize| p as int,
                ).push(i as int));
                assert(before.map_values(|p: usize| p as int).push(i as int) + frame_delimiters_from(
                    buffer@,
                    nal_start as int,
                ) =~= before.map_values(|p: usize| p as int) + (seq![i as int]
                    + frame_delimiters_from(buffer@, nal_start as int)));
                if positions.len() >= 2 {
                    let ghost all = frame_delimiters_from(buffer@, 0);
                    assert(all[1] == positions@.map_values(|p: usize| p as int)[1]);
                    return Some(positions[1]);
                }
            }
            i = nal_start;
        }
    }
    assert(frame_delimiters_from(buffer@, i as int) == Seq::<int>::empty());
    assert(positions@.map_values(|p: usize| p as int) =~= frame_delimiters_from(buffer@, 0));
    None
}

/// Whether the access unit holds an IDR slice: whether one of the NAL
/// units that the walk [`units_from`] meets is of type 5.
pub fn contains_idr(data: &[u8]) -> (b: bool)
    ensures
        b == idr_from(data@, 0),
        b <==> has_idr_unit(data@, units_from(data@, 0)),
{
    proof {
        idr_iff_some_unit_is_idr(data@, 0);
    }
    let mut i: usize = 0;
    let n = data.len();
    while n > 3 && i < n - 3
        invariant
            n == data@.len(),
            i <= n,
            idr_from(data@, i as int) == idr_from(data@, 0),
            idr_from(data@, 0) == has_idr_unit(data@, units_from(data@, 0)),
        decreases n - i,
    {
        let l = start_code_len_at(data, i);
        if l == 0 {
            i = i + 1;
        } else {
            let nal_start = i + l;
            if nal_start >= n {
                return false;
            }
            if data[nal_start] & 0x1f == NAL_IDR {
                return true;
            }
            i = nal_start;
        }
    }
    false
}

} // verus!
