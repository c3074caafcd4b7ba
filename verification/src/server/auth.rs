//! The challenge and response by which a client proves it knows the shared
//! key.
use vstd::prelude::*;
use crate::network::fingerprint::{sha256, sha256_digest};
use crate::protocol::tcp::{TcpPacket, TcpPacketV};
use crate::protocol::wire::utf8;

verus! {

/// The key that client and server share.
pub const SERVER_KEY: &'static str = "super_secret_key";

/// `rand::fill` on a fresh 32-byte buffer: 32 bytes from the thread-local
/// random generator. Nothing is claimed of their values.
#[verifier::external_body]
fn random_bytes() -> (bytes: [u8; 32]) {
    let mut bytes = [0u8; 32];
    rand::fill(&mut bytes);
    bytes
}

/// A fresh random challenge for a connecting client.
pub fn generate_challenge() -> (challenge: [u8; 32]) {
    random_bytes()
}

/// The response that proves knowledge of `key` for `challenge`: the
/// SHA-256 digest of the key's UTF-8 bytes followed by the challenge.
pub fn create_response(key: &str, challenge: &[u8]) -> (response: Vec<u8>)
    ensures
        response@ == sha256(utf8(key@) + challenge@),
{
    let key_bytes = key.as_bytes();
    let mut message: Vec<u8> = vstd::slice::slice_to_vec(key_bytes);
    let mut i: usize = 0;
    while i < challenge.len()
        invariant
            i <= challenge@.len(),
            message@ == utf8(key@) + challenge@.take(i as int),
        decreases challenge.len() - i,
    {
        message.push(challenge[i]);
        proof {
            assert(challenge@.take(i + 1) =~= challenge@.take(i as int).push(challenge@[i as int]));
        }
        i = i + 1;
    }
    proof {
        assert(challenge@.take(challenge@.len() as int) =~= challenge@);
    }
    let digest = sha256_digest(message.as_slice());
    vstd::slice::slice_to_vec(vstd::array::array_as_slice(&digest))
}

/// Whether two byte strings are the same.
fn same_bytes(a: &[u8], b: &[u8]) -> (same: bool)
    ensures
        same <==> a@ == b@,
{
    if a.len() != b.len() {
        return false;
    }
    let mut i: usize = 0;
    while i < a.len()
        invariant
            a@.len() == b@.len(),
            i <= a@.len(),
            forall|j: int| 0 <= j < i ==> a@[j] == b@[j],
        decreases a.len() - i,
    {
        if a[i] != b[i] {
            return false;
        }
        i = i + 1;
    }
    proof {
        assert(a@ =~= b@);
    }
    true
}

/// The response a client must give to `challenge`.
pub open spec fn expected_response(challenge: Seq<u8>) -> Seq<u8> {
    sha256(utf8(SERVER_KEY@) + challenge)
}

/// How the server answers a client's `response` to `challenge`: it is
/// accepted exactly when it is the response the shared key gives.
pub fn answer_response(challenge: &[u8], response: &[u8]) -> (reply: TcpPacket)
    ensures
        reply@ == (if response@ == expected_response(challenge@) {
            TcpPacketV::AuthAccepted
        } else {
            TcpPacketV::AuthDenied
        }),
{
    let expected = create_response(SERVER_KEY, challenge);
    if same_bytes(response, expected.as_slice()) {
        TcpPacket::AuthAccepted
    } else {
        TcpPacket::AuthDenied
    }
}

} // verus!
