//! Control packets on a byte stream: each is sent as its length, a
//! big-endian u32, followed by its bytes.
use vstd::prelude::*;
use crate::protocol::command::Packet;
use crate::protocol::tcp::{tcp_wire, TcpPacket};
use crate::protocol::wire::{put_bytes, put_u16, put_u32, string_from_utf8, u16_be, u32_be, utf8};
use vstd::utf8::{decode_utf8, decode_utf8_encode_utf8, valid_utf8};

verus! {

/// The largest control packet a receiver accepts, in bytes.
pub const MAX_PACKET_LEN: u32 = 65536;

/// Why a control packet was not received.
#[derive(Debug, Clone, Copy, PartialEq, Eq, Structural)]
pub enum ReceiveError {
    /// The announced length is over [`MAX_PACKET_LEN`].
    TooLarge { len: u32 },
    /// The bytes do not read as a packet.
    Invalid,
}

/// A body behind its length prefix; a length over `u32::MAX` is cut to 32
/// bits.
pub open spec fn framed(body: Seq<u8>) -> Seq<u8> {
    u32_be(body.len() as u32) + body
}

/// Puts a body behind its length prefix.
pub fn frame(body: Vec<u8>) -> (out: Vec<u8>)
    ensures
        out@ == framed(body@),
{
    let mut out: Vec<u8> = Vec::new();
    #[verifier::truncate]
    let len = body.len() as u32;
    put_u32(&mut out, len);
    put_bytes(&mut out, body.as_slice());
    out
}

/// The bytes a control packet is sent as.
pub fn frame_packet<P: Packet>(packet: &P) -> (out: Vec<u8>)
    requires
        packet.encodable(),
    ensures
        out@ == framed(P::wire(packet@)),
{
    frame(packet.encode())
}

/// The bytes a packet of the TCP control channel is sent as.
pub fn frame_tcp_packet(packet: &TcpPacket) -> (out: Vec<u8>)
    ensures
        out@ == framed(tcp_wire(packet@)),
{
    frame(packet.encode())
}

/// Checks an announced packet length: at most [`MAX_PACKET_LEN`] bytes are
/// read.
pub fn check_packet_length(len: u32) -> (res: Result<usize, ReceiveError>)
    ensures
        len > MAX_PACKET_LEN ==> res == Err::<usize, ReceiveError>(ReceiveError::TooLarge { len }),
        len <= MAX_PACKET_LEN ==> res == Ok::<usize, ReceiveError>(len as usize),
{
    if len > MAX_PACKET_LEN {
        Err(ReceiveError::TooLarge { len })
    } else {
        Ok(len as usize)
    }
}

/// Reads the body of a received control packet.
pub fn decode_packet<P: Packet>(body: &[u8]) -> (res: Result<P, ReceiveError>)
    ensures
        match P::parse(body@) {
            None => res == Err::<P, ReceiveError>(ReceiveError::Invalid),
            Some(v) => res matches Ok(p) && p@ == v,
        },
{
    match P::decode(body) {
        Some(p) => Ok(p),
        None => Err(ReceiveError::Invalid),
    }
}

/// What a client sends to answer the server's challenge: the length of its
/// username as a big-endian u16 (cut to 16 bits), the username's bytes, and
/// the response.
pub open spec fn auth_message_bytes(username: Seq<char>, response: Seq<u8>) -> Seq<u8> {
    u16_be(utf8(username).len() as u16) + utf8(username) + response
}

/// The bytes a client sends to answer the server's challenge.
pub fn auth_message(username: &str, response: &[u8]) -> (out: Vec<u8>)
    ensures
        out@ == auth_message_bytes(username@, response@),
{
    let name = username.as_bytes();
    let mut out: Vec<u8> = Vec::new();
    #[verifier::truncate]
    let len = name.len() as u16;
    put_u16(&mut out, len);
    put_bytes(&mut out, name);
    put_bytes(&mut out, response);
    out
}

/// The username a server reads from a client's answer: its bytes as text,
/// or `None` when they are not UTF-8. A name read back is written with the
/// very bytes it was read from.
pub fn auth_username(name: Vec<u8>) -> (res: Option<String>)
    ensures
        res is Some <==> valid_utf8(name@),
        res matches Some(s) ==> s@ == decode_utf8(name@) && utf8(s@) == name@,
{
    proof {
        if valid_utf8(name@) {
            decode_utf8_encode_utf8(name@);
        }
    }
    string_from_utf8(name)
}

} // verus!
