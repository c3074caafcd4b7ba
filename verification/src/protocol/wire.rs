//! Big-endian integers and length-prefixed UTF-8 strings.
use vstd::prelude::*;
use vstd::utf8::*;

verus! {

/// The two big-endian bytes of `v`.
pub open spec fn u16_be(v: u16) -> Seq<u8> {
    seq![(v >> 8u16) as u8, v as u8]
}

/// The four big-endian bytes of `v`.
pub open spec fn u32_be(v: u32) -> Seq<u8> {
    seq![(v >> 24u32) as u8, (v >> 16u32) as u8, (v >> 8u32) as u8, v as u8]
}

/// The eight big-endian bytes of `v`.
pub open spec fn u64_be(v: u64) -> Seq<u8> {
    seq![
        (v >> 56u64) as u8, (v >> 48u64) as u8, (v >> 40u64) as u8, (v >> 32u64) as u8,
        (v >> 24u64) as u8, (v >> 16u64) as u8, (v >> 8u64) as u8, v as u8,
    ]
}

/// The value of two big-endian bytes.
pub open spec fn be_u16(b: Seq<u8>) -> u16 {
    (((b[0] as u16) << 8u16) | (b[1] as u16)) as u16
}

/// The value of four big-endian bytes.
pub open spec fn be_u32(b: Seq<u8>) -> u32 {
    (((b[0] as u32) << 24u32) | ((b[1] as u32) << 16u32) | ((b[2] as u32) << 8u32)
        | (b[3] as u32)) as u32
}

/// The value of eight big-endian bytes.
pub open spec fn be_u64(b: Seq<u8>) -> u64 {
    (((b[0] as u64) << 56u64) | ((b[1] as u64) << 48u64) | ((b[2] as u64) << 40u64)
        | ((b[3] as u64) << 32u64) | ((b[4] as u64) << 24u64) | ((b[5] as u64) << 16u64)
        | ((b[6] as u64) << 8u64) | (b[7] as u64)) as u64
}

/// The UTF-8 bytes of a string's characters.
pub open spec fn utf8(s: Seq<char>) -> Seq<u8> {
    encode_utf8(s)
}

/// A string as the wire carries it: its byte length as a big-endian u16,
/// then its UTF-8 bytes.
pub open spec fn string_field(s: Seq<char>) -> Seq<u8> {
    u16_be(utf8(s).len() as u16) + utf8(s)
}

/// Whether a string's UTF-8 form fits a u16 length prefix.
pub open spec fn fits_u16(s: Seq<char>) -> bool {
    utf8(s).len() <= u16::MAX
}

/// Reading a big-endian u16 from the front of `b`: the value and the rest.
pub open spec fn take_u16(b: Seq<u8>) -> Option<(u16, Seq<u8>)> {
    if b.len() < 2 {
        None
    } else {
        Some((be_u16(b), b.skip(2)))
    }
}

/// Reading a big-endian u32 from the front of `b`: the value and the rest.
pub open spec fn take_u32(b: Seq<u8>) -> Option<(u32, Seq<u8>)> {
    if b.len() < 4 {
        None
    } else {
        Some((be_u32(b), b.skip(4)))
    }
}

/// Reading a big-endian u64 from the front of `b`: the value and the rest.
pub open spec fn take_u64(b: Seq<u8>) -> Option<(u64, Seq<u8>)> {
    if b.len() < 8 {
        None
    } else {
        Some((be_u64(b), b.skip(8)))
    }
}

/// Reading a length-prefixed UTF-8 string from the front of `b`: the
/// string's characters and the rest; `None` when the buffer is too short
/// or the bytes are not UTF-8.
pub open spec fn take_string(b: Seq<u8>) -> Option<(Seq<char>, Seq<u8>)> {
    match take_u16(b) {
        None => None,
        Some((len, rest)) => {
            if rest.len() < len {
                None
            } else if !valid_utf8(rest.take(len as int)) {
                None
            } else {
                Some((decode_utf8(rest.take(len as int)), rest.skip(len as int)))
            }
        },
    }
}

pub proof fn lemma_u16_roundtrip(v: u16)
    ensures
        be_u16(u16_be(v)) == v,
{
    let b0 = (v >> 8u16) as u8;
    let b1 = v as u8;
    assert((((b0 as u16) << 8u16) | (b1 as u16)) == v) by (bit_vector)
        requires
            b0 == (v >> 8u16) as u8,
            b1 == v as u8,
    ;
}

pub proof fn lemma_u32_roundtrip(v: u32)
    ensures
        be_u32(u32_be(v)) == v,
{
    let b0 = (v >> 24u32) as u8;
    let b1 = (v >> 16u32) as u8;
    let b2 = (v >> 8u32) as u8;
    let b3 = v as u8;
    assert((((b0 as u32) << 24u32) | ((b1 as u32) << 16u32) | ((b2 as u32) << 8u32) | (b3 as u32))
        == v) by (bit_vector)
        requires
            b0 == (v >> 24u32) as u8,
            b1 == (v >> 16u32) as u8,
            b2 == (v >> 8u32) as u8,
            b3 == v as u8,
    ;
}

pub proof fn lemma_u64_roundtrip(v: u64)
    ensures
        be_u64(u64_be(v)) == v,
{
    let b0 = (v >> 56u64) as u8;
    let b1 = (v >> 48u64) as u8;
    let b2 = (v >> 40u64) as u8;
    let b3 = (v >> 32u64) as u8;
    let b4 = (v >> 24u64) as u8;
    let b5 = (v >> 16u64) as u8;
    let b6 = (v >> 8u64) as u8;
    let b7 = v as u8;
    assert((((b0 as u64) << 56u64) | ((b1 as u64) << 48u64) | ((b2 as u64) << 40u64) | ((
    b3 as u64) << 32u64) | ((b4 as u64) << 24u64) | ((b5 as u64) << 16u64) | ((b6 as u64)
        << 8u64) | (b7 as u64)) == v) by (bit_vector)
        requires
            b0 == (v >> 56u64) as u8,
            b1 == (v >> 48u64) as u8,
            b2 == (v >> 40u64) as u8,
            b3 == (v >> 32u64) as u8,
            b4 == (v >> 24u64) as u8,
            b5 == (v >> 16u64) as u8,
            b6 == (v >> 8u64) as u8,
            b7 == v as u8,
    ;
}

/// Two bytes read as a big-endian u16 and written again are the same bytes.
pub proof fn lemma_be_u16_bytes(b: Seq<u8>)
    requires
        b.len() == 2,
    ensures
        u16_be(be_u16(b)) == b,
{
    let b0 = b[0];
    let b1 = b[1];
    let v = be_u16(b);
    assert((v >> 8u16) as u8 == b0 && v as u8 == b1) by (bit_vector)
        requires
            v == (((b0 as u16) << 8u16) | (b1 as u16)) as u16,
    ;
    assert(u16_be(v) =~= b);
}

/// Eight bytes read as a big-endian u64 and written again are the same
/// bytes.
pub proof fn lemma_be_u64_bytes(b: Seq<u8>)
    requires
        b.len() == 8,
    ensures
        u64_be(be_u64(b)) == b,
{
    let b0 = b[0];
    let b1 = b[1];
    let b2 = b[2];
    let b3 = b[3];
    let b4 = b[4];
    let b5 = b[5];
    let b6 = b[6];
    let b7 = b[7];
    let v = be_u64(b);
    assert((v >> 56u64) as u8 == b0 && (v >> 48u64) as u8 == b1 && (v >> 40u64) as u8 == b2 && (v
        >> 32u64) as u8 == b3 && (v >> 24u64) as u8 == b4 && (v >> 16u64) as u8 == b5 && (v
        >> 8u64) as u8 == b6 && v as u8 == b7) by (bit_vector)
        requires
            v == (((b0 as u64) << 56u64) | ((b1 as u64) << 48u64) | ((b2 as u64) << 40u64) | ((
            b3 as u64) << 32u64) | ((b4 as u64) << 24u64) | ((b5 as u64) << 16u64) | ((b6 as u64)
                << 8u64) | (b7 as u64)) as u64,
    ;
    assert(u64_be(v) =~= b);
}

/// A big-endian u16 followed by anything reads back as itself.
pub proof fn lemma_take_u16_prefix(v: u16, rest: Seq<u8>)
    ensures
        take_u16(u16_be(v) + rest) == Some((v, rest)),
{
    let b = u16_be(v) + rest;
    lemma_u16_roundtrip(v);
    assert(b[0] == u16_be(v)[0] && b[1] == u16_be(v)[1]);
    assert(b.skip(2) =~= rest);
}

/// A big-endian u32 followed by anything reads back as itself.
pub proof fn lemma_take_u32_prefix(v: u32, rest: Seq<u8>)
    ensures
        take_u32(u32_be(v) + rest) == Some((v, rest)),
{
    let b = u32_be(v) + rest;
    lemma_u32_roundtrip(v);
    assert(b[0] == u32_be(v)[0] && b[1] == u32_be(v)[1] && b[2] == u32_be(v)[2] && b[3]
        == u32_be(v)[3]);
    assert(b.skip(4) =~= rest);
}

/// A big-endian u64 followed by anything reads back as itself.
pub proof fn lemma_take_u64_prefix(v: u64, rest: Seq<u8>)
    ensures
        take_u64(u64_be(v) + rest) == Some((v, rest)),
{
    let b = u64_be(v) + rest;
    lemma_u64_roundtrip(v);
    let e = u64_be(v);
    assert(b[0] == e[0] && b[1] == e[1] && b[2] == e[2] && b[3] == e[3] && b[4] == e[4] && b[5]
        == e[5] && b[6] == e[6] && b[7] == e[7]);
    assert(b.skip(8) =~= rest);
}

/// A string field followed by anything reads back as the string.
pub proof fn lemma_take_string_prefix(s: Seq<char>, rest: Seq<u8>)
    requires
        fits_u16(s),
    ensures
        take_string(string_field(s) + rest) == Some((s, rest)),
{
    let bytes = utf8(s);
    let len = bytes.len() as u16;
    assert(len as int == bytes.len());
    let b = string_field(s) + rest;
    assert(b =~= u16_be(len) + (bytes + rest));
    lemma_take_u16_prefix(len, bytes + rest);
    let r = bytes + rest;
    assert(r.take(len as int) =~= bytes);
    assert(r.skip(len as int) =~= rest);
    encode_utf8_valid_utf8(s);
    encode_utf8_decode_utf8(s);
}

/// Appends the big-endian bytes of `value`.
pub fn put_u16(out: &mut Vec<u8>, value: u16)
    ensures
        final(out)@ == old(out)@ + u16_be(value),
{
    out.push((value >> 8u16) as u8);
    out.push(value as u8);
}

/// Appends the big-endian bytes of `value`.
pub fn put_u32(out: &mut Vec<u8>, value: u32)
    ensures
        final(out)@ == old(out)@ + u32_be(value),
{
    out.push((value >> 24u32) as u8);
    out.push((value >> 16u32) as u8);
    out.push((value >> 8u32) as u8);
    out.push(value as u8);
}

/// Appends the big-endian bytes of `value`.
pub fn put_u64(out: &mut Vec<u8>, value: u64)
    ensures
        final(out)@ == old(out)@ + u64_be(value),
{
    out.push((value >> 56u64) as u8);
    out.push((value >> 48u64) as u8);
    out.push((value >> 40u64) as u8);
    out.push((value >> 32u64) as u8);
    out.push((value >> 24u64) as u8);
    out.push((value >> 16u64) as u8);
    out.push((value >> 8u64) as u8);
    out.push(value as u8);
}

/// Appends all of `bytes`.
pub fn put_bytes(out: &mut Vec<u8>, bytes: &[u8])
    ensures
        final(out)@ == old(out)@ + bytes@,
{
    let mut i: usize = 0;
    while i < bytes.len()
        invariant
            i <= bytes@.len(),
            out@ == old(out)@ + bytes@.take(i as int),
        decreases bytes@.len() - i,
    {
        out.push(bytes[i]);
        i = i + 1;
        assert(bytes@.take(i as int) == bytes@.take(i - 1 as int).push(bytes@[i - 1]));
    }
    assert(bytes@.take(i as int) == bytes@);
}


/// Appends `value` as a string field.
///
/// A string longer than 65535 bytes has no such field and must not be
/// given.
pub fn put_string(out: &mut Vec<u8>, value: &str)
    requires
        fits_u16(value@),
    ensures
        final(out)@ == old(out)@ + string_field(value@),
{
    let bytes = value.as_bytes();
    put_u16(out, bytes.len() as u16);
    put_bytes(out, bytes);
    assert(final(out)@ == old(out)@ + string_field(value@));
}

/// The characters that UTF-8 bytes decode to, or `None` when they are not
/// UTF-8. `String::from_utf8` of std: its documentation says it fails exactly
/// on invalid UTF-8 and otherwise holds the decoded characters.
#[verifier::external_body]
pub(crate) fn string_from_utf8(bytes: Vec<u8>) -> (res: Option<String>)
    ensures
        res is Some <==> valid_utf8(bytes@),
        res matches Some(s) ==> s@ == decode_utf8(bytes@),
{
    String::from_utf8(bytes).ok()
}

/// Reads a big-endian u16 from the front of `buf` and moves `buf` past it;
/// leaves `buf` as it was when fewer than two bytes remain.
pub fn read_u16(buf: &mut &[u8]) -> (res: Option<u16>)
    ensures
        match take_u16(old(buf)@) {
            None => res is None && final(buf)@ == old(buf)@,
            Some((v, rest)) => res == Some(v) && final(buf)@ == rest,
        },
{
    let b: &[u8] = *buf;
    if b.len() < 2 {
        return None;
    }
    let value = ((b[0] as u16) << 8u16) | (b[1] as u16);
    *buf = &b[2..b.len()];
    Some(value)
}

/// Reads a big-endian u32 from the front of `buf` and moves `buf` past it;
/// leaves `buf` as it was when fewer than four bytes remain.
pub fn read_u32(buf: &mut &[u8]) -> (res: Option<u32>)
    ensures
        match take_u32(old(buf)@) {
            None => res is None && final(buf)@ == old(buf)@,
            Some((v, rest)) => res == Some(v) && final(buf)@ == rest,
        },
{
    let b: &[u8] = *buf;
    if b.len() < 4 {
        return None;
    }
    let value = ((b[0] as u32) << 24u32) | ((b[1] as u32) << 16u32) | ((b[2] as u32) << 8u32)
        | (b[3] as u32);
    *buf = &b[4..b.len()];
    Some(value)
}

/// Reads a big-endian u64 from the front of `buf` and moves `buf` past it;
/// leaves `buf` as it was when fewer than eight bytes remain.
pub fn read_u64(buf: &mut &[u8]) -> (res: Option<u64>)
    ensures
        match take_u64(old(buf)@) {
            None => res is None && final(buf)@ == old(buf)@,
            Some((v, rest)) => res == Some(v) && final(buf)@ == rest,
        },
{
    let b: &[u8] = *buf;
    if b.len() < 8 {
        return None;
    }
    let value = ((b[0] as u64) << 56u64) | ((b[1] as u64) << 48u64) | ((b[2] as u64) << 40u64)
        | ((b[3] as u64) << 32u64) | ((b[4] as u64) << 24u64) | ((b[5] as u64) << 16u64) | ((
    b[6] as u64) << 8u64) | (b[7] as u64);
    *buf = &b[8..b.len()];
    Some(value)
}

/// Reads a string field from the front of `buf` and moves `buf` past it.
/// On failure `buf` has moved past the length prefix when there was one.
pub fn read_string(buf: &mut &[u8]) -> (res: Option<String>)
    ensures
        match take_string(old(buf)@) {
            None => res is None,
            Some((s, rest)) => res matches Some(r) && r@ == s && final(buf)@ == rest,
        },
        res is None ==> (final(buf)@ == old(buf)@ || final(buf)@ == old(buf)@.skip(2)),
{
    let len = match read_u16(buf) {
        Some(l) => l as usize,
        None => return None,
    };
    let b: &[u8] = *buf;
    if b.len() < len {
        return None;
    }
    let head = vstd::slice::slice_to_vec(&b[0..len]);
    assert(head@ == old(buf)@.skip(2).take(len as int));
    let value = match string_from_utf8(head) {
        Some(v) => v,
        None => return None,
    };
    *buf = &b[len..b.len()];
    Some(value)
}

} // verus!
