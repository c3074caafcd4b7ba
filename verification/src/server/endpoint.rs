//! What the server shows of its own certificate.
use vstd::prelude::*;
use crate::network::fingerprint::{colon_hex, colon_hex_string, sha256, sha256_digest};

verus! {

/// The fingerprint of a DER certificate as clients configure it: its
/// SHA-256 digest as upper-case hexadecimal pairs joined by colons.
pub fn cert_fingerprint(cert_der: &[u8]) -> (text: String)
    ensures
        text@ == colon_hex(sha256(cert_der@)),
{
    let digest = sha256_digest(cert_der);
    colon_hex_string(vstd::array::array_as_slice(&digest))
}

} // verus!
