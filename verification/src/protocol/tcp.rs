//! Packets of the earlier TCP control channel.
use vstd::prelude::*;
use vstd::utf8::{
    decode_utf8, valid_utf8, decode_utf8_encode_utf8, encode_utf8_decode_utf8,
    encode_utf8_valid_utf8,
};
use super::wire::{
    be_u16, be_u64, fits_u16, put_bytes, put_u16, put_u64, string_from_utf8, u16_be, u64_be, utf8,
    lemma_be_u16_bytes, lemma_be_u64_bytes, lemma_u16_roundtrip, lemma_u64_roundtrip,
};

verus! {

/// Packets of the TCP control channel.
pub enum TcpPacket {
    AuthAccepted,
    AuthDenied,
    SendUID { uid: u64 },
    UserJoined { uid: u64, username: String },
    UserLeft { uid: u64, username: String },
    StreamStarted { uid: u64, username: String },
    StreamStopped { uid: u64, username: String },
    Error { error: String },
}

/// The mathematical content of a [`TcpPacket`].
pub enum TcpPacketV {
    AuthAccepted,
    AuthDenied,
    SendUID { uid: u64 },
    UserJoined { uid: u64, username: Seq<char> },
    UserLeft { uid: u64, username: Seq<char> },
    StreamStarted { uid: u64, username: Seq<char> },
    StreamStopped { uid: u64, username: Seq<char> },
    Error { error: Seq<char> },
}

impl View for TcpPacket {
    type V = TcpPacketV;

    open spec fn view(&self) -> TcpPacketV {
        match self {
            TcpPacket::AuthAccepted => TcpPacketV::AuthAccepted,
            TcpPacket::AuthDenied => TcpPacketV::AuthDenied,
            TcpPacket::SendUID { uid } => TcpPacketV::SendUID { uid: *uid },
            TcpPacket::UserJoined { uid, username } => TcpPacketV::UserJoined {
                uid: *uid,
                username: username@,
            },
            TcpPacket::UserLeft { uid, username } => TcpPacketV::UserLeft {
                uid: *uid,
                username: username@,
            },
            TcpPacket::StreamStarted { uid, username } => TcpPacketV::StreamStarted {
                uid: *uid,
                username: username@,
            },
            TcpPacket::StreamStopped { uid, username } => TcpPacketV::StreamStopped {
                uid: *uid,
                username: username@,
            },
            TcpPacket::Error { error } => TcpPacketV::Error { error: error@ },
        }
    }
}

/// A name as this channel writes it: its byte length cut to 16 bits, then
/// its UTF-8 bytes.
pub open spec fn short_text(s: Seq<char>) -> Seq<u8> {
    u16_be(utf8(s).len() as u16) + utf8(s)
}

/// The bytes of a TCP packet.
pub open spec fn tcp_wire(p: TcpPacketV) -> Seq<u8> {
    match p {
        TcpPacketV::AuthAccepted => seq![0x10u8],
        TcpPacketV::AuthDenied => seq![0x11u8],
        TcpPacketV::SendUID { uid } => seq![0x12u8] + u64_be(uid),
        TcpPacketV::UserJoined { uid, username } => seq![0x13u8] + u64_be(uid) + short_text(
            username,
        ),
        TcpPacketV::UserLeft { uid, username } => seq![0x14u8] + u64_be(uid) + short_text(username),
        TcpPacketV::StreamStarted { uid, username } => seq![0x15u8] + u64_be(uid) + short_text(
            username,
        ),
        TcpPacketV::StreamStopped { uid, username } => seq![0x16u8] + u64_be(uid) + short_text(
            username,
        ),
        TcpPacketV::Error { error } => seq![0x17u8] + short_text(error),
    }
}

/// The uid and name of a packet whose uid starts at byte 1, whose name
/// length is at bytes 9 and 10 and whose name runs to the exact end.
pub open spec fn uid_and_name(buf: Seq<u8>) -> Option<(u64, Seq<char>)> {
    if buf.len() < 11 {
        None
    } else if buf.len() != 11 + be_u16(buf.subrange(9, 11)) {
        None
    } else if !valid_utf8(buf.skip(11)) {
        None
    } else {
        Some((be_u64(buf.subrange(1, 9)), decode_utf8(buf.skip(11))))
    }
}

/// What a buffer reads as on the TCP channel. Every packet must end exactly
/// where its fields end.
pub open spec fn tcp_parse(buf: Seq<u8>) -> Option<TcpPacketV> {
    if buf.len() == 0 {
        None
    } else if buf[0] == 0x10 {
        if buf.len() == 1 {
            Some(TcpPacketV::AuthAccepted)
        } else {
            None
        }
    } else if buf[0] == 0x11 {
        if buf.len() == 1 {
            Some(TcpPacketV::AuthDenied)
        } else {
            None
        }
    } else if buf[0] == 0x12 {
        if buf.len() == 9 {
            Some(TcpPacketV::SendUID { uid: be_u64(buf.subrange(1, 9)) })
        } else {
            None
        }
    } else if buf[0] == 0x13 {
        match uid_and_name(buf) {
            Some((uid, username)) => Some(TcpPacketV::UserJoined { uid, username }),
            None => None,
        }
    } else if buf[0] == 0x14 {
        match uid_and_name(buf) {
            Some((uid, username)) => Some(TcpPacketV::UserLeft { uid, username }),
            None => None,
        }
    } else if buf[0] == 0x15 {
        match uid_and_name(buf) {
            Some((uid, username)) => Some(TcpPacketV::StreamStarted { uid, username }),
            None => None,
        }
    } else if buf[0] == 0x16 {
        match uid_and_name(buf) {
            Some((uid, username)) => Some(TcpPacketV::StreamStopped { uid, username }),
            None => None,
        }
    } else if buf[0] == 0x17 {
        if buf.len() < 3 {
            None
        } else if buf.len() != 3 + be_u16(buf.subrange(1, 3)) {
            None
        } else if !valid_utf8(buf.skip(3)) {
            None
        } else {
            Some(TcpPacketV::Error { error: decode_utf8(buf.skip(3)) })
        }
    } else {
        None
    }
}

/// Whether every name of a TCP packet fits its 16-bit length.
pub open spec fn tcp_fits(p: TcpPacketV) -> bool {
    match p {
        TcpPacketV::UserJoined { username, .. } => fits_u16(username),
        TcpPacketV::UserLeft { username, .. } => fits_u16(username),
        TcpPacketV::StreamStarted { username, .. } => fits_u16(username),
        TcpPacketV::StreamStopped { username, .. } => fits_u16(username),
        TcpPacketV::Error { error } => fits_u16(error),
        _ => true,
    }
}

/// Appends a name with its length cut to 16 bits.
fn put_short_text(out: &mut Vec<u8>, text: &String)
    ensures
        final(out)@ == old(out)@ + short_text(text@),
{
    let bytes = text.as_str().as_bytes();
    put_u16(out, bytes.len() as u16);
    put_bytes(out, bytes);
    assert(final(out)@ =~= old(out)@ + short_text(text@));
}

/// The big-endian u64 at `buf[at..at + 8]`.
fn u64_at(buf: &[u8], at: usize) -> (v: u64)
    requires
        at + 8 <= buf@.len(),
    ensures
        v == be_u64(buf@.subrange(at as int, at + 8)),
{
    ((buf[at] as u64) << 56u64) | ((buf[at + 1] as u64) << 48u64) | ((buf[at + 2] as u64) << 40u64)
        | ((buf[at + 3] as u64) << 32u64) | ((buf[at + 4] as u64) << 24u64) | ((buf[at + 5] as u64)
        << 16u64) | ((buf[at + 6] as u64) << 8u64) | (buf[at + 7] as u64)
}

/// The big-endian u16 at `buf[at..at + 2]`.
fn u16_at(buf: &[u8], at: usize) -> (v: u16)
    requires
        at + 2 <= buf@.len(),
    ensures
        v == be_u16(buf@.subrange(at as int, at + 2)),
{
    ((buf[at] as u16) << 8u16) | (buf[at + 1] as u16)
}

/// The text from `start` to the end of `buf`, if it is UTF-8.
fn text_from(buf: &[u8], start: usize) -> (res: Option<String>)
    requires
        start <= buf@.len(),
    ensures
        res is Some <==> valid_utf8(buf@.skip(start as int)),
        res matches Some(s) ==> s@ == decode_utf8(buf@.skip(start as int)),
{
    let v = vstd::slice::slice_to_vec(&buf[start..buf.len()]);
    assert(v@ =~= buf@.skip(start as int));
    string_from_utf8(v)
}

/// Reads the uid and name of a packet laid out as [`uid_and_name`] says.
fn read_uid_and_name(buf: &[u8]) -> (res: Option<(u64, String)>)
    ensures
        match uid_and_name(buf@) {
            None => res is None,
            Some((uid, name)) => res matches Some((u, n)) && u == uid && n@ == name,
        },
{
    if buf.len() < 11 {
        return None;
    }
    let uid = u64_at(buf, 1);
    let name_len = u16_at(buf, 9) as usize;
    if buf.len() != 11 + name_len {
        return None;
    }
    match text_from(buf, 11) {
        Some(name) => Some((uid, name)),
        None => None,
    }
}

impl TcpPacket {
    /// The packet's bytes; a name longer than 65535 bytes has its length
    /// cut to 16 bits.
    pub fn encode(&self) -> (out: Vec<u8>)
        ensures
            out@ == tcp_wire(self@),
    {
        let mut out: Vec<u8> = Vec::new();
        match self {
            TcpPacket::AuthAccepted => {
                out.push(0x10);
            },
            TcpPacket::AuthDenied => {
                out.push(0x11);
            },
            TcpPacket::SendUID { uid } => {
                out.push(0x12);
                put_u64(&mut out, *uid);
            },
            TcpPacket::UserJoined { uid, username } => {
                out.push(0x13);
                put_u64(&mut out, *uid);
                put_short_text(&mut out, username);
            },
            TcpPacket::UserLeft { uid, username } => {
                out.push(0x14);
                put_u64(&mut out, *uid);
                put_short_text(&mut out, username);
            },
            TcpPacket::StreamStarted { uid, username } => {
                out.push(0x15);
                put_u64(&mut out, *uid);
                put_short_text(&mut out, username);
            },
            TcpPacket::StreamStopped { uid, username } => {
                out.push(0x16);
                put_u64(&mut out, *uid);
                put_short_text(&mut out, username);
            },
            TcpPacket::Error { error } => {
                out.push(0x17);
                put_short_text(&mut out, error);
            },
        }
        assert(out@ =~= tcp_wire(self@));
        out
    }

    /// The packet a buffer holds, as [`tcp_parse`] reads it.
    pub fn decode(buf: &[u8]) -> (res: Option<TcpPacket>)
        ensures
            match tcp_parse(buf@) {
                None => res is None,
                Some(v) => res matches Some(p) && p@ == v,
            },
            res matches Some(p) ==> tcp_wire(p@) == buf@,
    {
        proof {
            if tcp_parse(buf@) is Some {
                tcp_parse_then_write(buf@);
            }
        }
        if buf.len() == 0 {
            return None;
        }
        let id = buf[0];
        if id == 0x10 {
            if buf.len() != 1 {
                return None;
            }
            Some(TcpPacket::AuthAccepted)
        } else if id == 0x11 {
            if buf.len() != 1 {
                return None;
            }
            Some(TcpPacket::AuthDenied)
        } else if id == 0x12 {
            if buf.len() != 9 {
                return None;
            }
            Some(TcpPacket::SendUID { uid: u64_at(buf, 1) })
        } else if id == 0x13 {
            match read_uid_and_name(buf) {
                Some((uid, username)) => Some(TcpPacket::UserJoined { uid, username }),
                None => None,
            }
        } else if id == 0x14 {
            match read_uid_and_name(buf) {
                Some((uid, username)) => Some(TcpPacket::UserLeft { uid, username }),
                None => None,
            }
        } else if id == 0x15 {
            match read_uid_and_name(buf) {
                Some((uid, username)) => Some(TcpPacket::StreamStarted { uid, username }),
                None => None,
            }
        } else if id == 0x16 {
            match read_uid_and_name(buf) {
                Some((uid, username)) => Some(TcpPacket::StreamStopped { uid, username }),
                None => None,
            }
        } else if id == 0x17 {
            if buf.len() < 3 {
                return None;
            }
            let err_len = u16_at(buf, 1) as usize;
            if buf.len() != 3 + err_len {
                return None;
            }
            match text_from(buf, 3) {
                Some(error) => Some(TcpPacket::Error { error }),
                None => None,
            }
        } else {
            None
        }
    }
}

/// A uid and a name written after an id byte read back as themselves.
proof fn lemma_uid_and_name(id: u8, uid: u64, name: Seq<char>)
    requires
        fits_u16(name),
    ensures
        uid_and_name(seq![id] + u64_be(uid) + short_text(name)) == Some((uid, name)),
{
    let b = seq![id] + u64_be(uid) + short_text(name);
    let len = utf8(name).len() as u16;
    assert(b.subrange(1, 9) =~= u64_be(uid));
    assert(b.subrange(9, 11) =~= u16_be(len));
    assert(b.skip(11) =~= utf8(name));
    lemma_u64_roundtrip(uid);
    lemma_u16_roundtrip(len);
    encode_utf8_valid_utf8(name);
    encode_utf8_decode_utf8(name);
}

/// A TCP packet reads back as itself once written, provided its names fit
/// their 16-bit lengths.
pub proof fn tcp_packet_roundtrip(p: TcpPacketV)
    requires
        tcp_fits(p),
    ensures
        tcp_parse(tcp_wire(p)) == Some(p),
{
    let b = tcp_wire(p);
    match p {
        TcpPacketV::SendUID { uid } => {
            assert(b.subrange(1, 9) =~= u64_be(uid));
            lemma_u64_roundtrip(uid);
        },
        TcpPacketV::UserJoined { uid, username } => {
            lemma_uid_and_name(0x13, uid, username);
        },
        TcpPacketV::UserLeft { uid, username } => {
            lemma_uid_and_name(0x14, uid, username);
        },
        TcpPacketV::StreamStarted { uid, username } => {
            lemma_uid_and_name(0x15, uid, username);
        },
        TcpPacketV::StreamStopped { uid, username } => {
            lemma_uid_and_name(0x16, uid, username);
        },
        TcpPacketV::Error { error } => {
            let len = utf8(error).len() as u16;
            assert(b.subrange(1, 3) =~= u16_be(len));
            assert(b.skip(3) =~= utf8(error));
            lemma_u16_roundtrip(len);
            encode_utf8_valid_utf8(error);
            encode_utf8_decode_utf8(error);
        },
        _ => {},
    }
}

/// The uid and name read from a packet, written back after its id byte,
/// give the packet's bytes.
proof fn lemma_uid_and_name_bytes(buf: Seq<u8>)
    requires
        uid_and_name(buf) is Some,
    ensures
        ({
            let (uid, name) = uid_and_name(buf)->0;
            seq![buf[0]] + u64_be(uid) + short_text(name) == buf
        }),
{
    let (uid, name) = uid_and_name(buf)->0;
    let body = buf.skip(11);
    decode_utf8_encode_utf8(body);
    assert(utf8(name) == body);
    lemma_be_u64_bytes(buf.subrange(1, 9));
    lemma_be_u16_bytes(buf.subrange(9, 11));
    assert(utf8(name).len() as u16 == be_u16(buf.subrange(9, 11)));
    assert(seq![buf[0]] + u64_be(uid) + short_text(name) =~= buf);
}

/// A buffer that reads as a TCP packet is exactly that packet's bytes: no
/// byte is left over and none is missing.
pub proof fn tcp_parse_then_write(buf: Seq<u8>)
    requires
        tcp_parse(buf) is Some,
    ensures
        tcp_wire(tcp_parse(buf)->0) == buf,
{
    let p = tcp_parse(buf)->0;
    if buf[0] == 0x10 || buf[0] == 0x11 {
        assert(tcp_wire(p) =~= buf);
    } else if buf[0] == 0x12 {
        lemma_be_u64_bytes(buf.subrange(1, 9));
        assert(tcp_wire(p) =~= buf);
    } else if buf[0] == 0x17 {
        let body = buf.skip(3);
        decode_utf8_encode_utf8(body);
        lemma_be_u16_bytes(buf.subrange(1, 3));
        assert(tcp_wire(p) =~= buf);
    } else {
        lemma_uid_and_name_bytes(buf);
    }
}

} // verus!
