//! Reading the trusted server fingerprint for the client's connection.
use vstd::prelude::*;
use crate::network::fingerprint::{
    cuts_inside_char, decode_pairs, digits_error, fingerprint_digits, lemma_first_invalid_pair, pair_at, pair_bytes, pairs_valid,
    sha256, sha256_digest, strip_separators, FingerprintError,
};

verus! {

/// Reads a fingerprint such as `A3:F1:9C:...:4B` (colons and spaces may
/// separate the digits, which may be upper or lower case) into its 32 raw
/// bytes.
///
/// The text is refused when, without its colons and spaces, it is not
/// exactly 64 bytes long, and at the first pair that is not two
/// hexadecimal digits. It must not be such that cutting it into pairs cuts a
/// character.
pub fn parse_fingerprint(input: String) -> (res: Result<Vec<u8>, FingerprintError>)
    requires
        !cuts_inside_char(fingerprint_digits(input@, false)),
    ensures
        ({
            let d = fingerprint_digits(input@, false);
            &&& d.len() != 64 ==> res == Err::<Vec<u8>, FingerprintError>(
                FingerprintError::WrongLength { found: d.len() as usize },
            )
            &&& d.len() == 64 && pairs_valid(d, 32) ==> (res matches Ok(bytes) && bytes@
                == pair_bytes(d))
            &&& forall|k: int|
                d.len() == 64 && 0 <= k < 32 && pairs_valid(d, k) && pair_at(d, k) is None ==> res
                    == Err::<Vec<u8>, FingerprintError>(
                    FingerprintError::InvalidByte { index: k as usize, high: d[2 * k], low: d[2 * k + 1] },
                )
            &&& res is Ok <==> digits_error(d) is None
            &&& res matches Err(e) ==> digits_error(d) == Some(e)
        }),
{
    let ghost d = fingerprint_digits(input@, false);
    proof {
        if d.len() == 64 && !pairs_valid(d, 32) {
            lemma_first_invalid_pair(d);
        }
    }
    let digits = strip_separators(input.as_str().as_bytes(), false);
    if digits.len() != 64 {
        return Err(FingerprintError::WrongLength { found: digits.len() });
    }
    match decode_pairs(&digits) {
        Ok(fingerprint) => Ok(vstd::slice::slice_to_vec(vstd::array::array_as_slice(&fingerprint))),
        Err(e) => Err(e),
    }
}

/// Whether the certificate a server presents (DER bytes) is the pinned one:
/// whether its SHA-256 digest is exactly the expected bytes.
pub fn pinned_certificate_matches(expected: &Vec<u8>, end_entity: &[u8]) -> (matches: bool)
    ensures
        matches == (expected@ == sha256(end_entity@)),
{
    let actual = sha256_digest(end_entity);
    proof {
        assert(actual@.len() == 32);
    }
    if expected.len() != 32 {
        return false;
    }
    let mut i: usize = 0;
    while i < 32
        invariant
            i <= 32,
            expected@.len() == 32,
            actual@.len() == 32,
            actual@ == sha256(end_entity@),
            forall|j: int| 0 <= j < i ==> expected@[j] == actual@[j],
        decreases 32 - i,
    {
        if expected[i] != actual[i] {
            proof {
                assert(expected@[i as int] != actual@[i as int]);
            }
            return false;
        }
        i = i + 1;
    }
    proof {
        assert(expected@ =~= actual@);
    }
    true
}

} // verus!
