//! SHA-256 certificate fingerprints: reading them from configuration text,
//! writing them as colon-separated hexadecimal, and checking the certificate
//! a server presents against the one the client was told to expect.
use vstd::prelude::*;
use vstd::utf8::{decode_utf8, encode_utf8, is_ascii_chars};
use crate::protocol::wire::{string_from_utf8, utf8};
use sha2::Digest;

verus! {

/// Why a fingerprint text was refused.
#[derive(Debug, Clone, Copy, PartialEq, Eq, Structural)]
pub enum FingerprintError {
    /// Once the separators are dropped, the text does not hold exactly 64
    /// bytes; `found` is how many it holds.
    WrongLength { found: usize },
    /// The two bytes of pair `index` (`high`, then `low`) are not both
    /// hexadecimal digits.
    InvalidByte { index: usize, high: u8, low: u8 },
}

/// The bytes that may separate the hexadecimal digits of a fingerprint: a
/// colon and a space always, and, when `lenient`, also a hyphen, a tab, a
/// line feed and a carriage return.
pub open spec fn is_separator(b: u8, lenient: bool) -> bool {
    b == 0x3A || b == 0x20 || (lenient && (b == 0x2D || b == 0x09 || b == 0x0A || b == 0x0D))
}

/// The bytes of a text with its separators taken out, in their order.
pub open spec fn hex_digits(bytes: Seq<u8>, lenient: bool) -> Seq<u8>
    decreases bytes.len(),
{
    if bytes.len() == 0 {
        Seq::empty()
    } else {
        let rest = hex_digits(bytes.drop_last(), lenient);
        if is_separator(bytes.last(), lenient) {
            rest
        } else {
            rest.push(bytes.last())
        }
    }
}

/// The value of one hexadecimal digit, upper or lower case.
pub open spec fn digit_value(b: u8) -> Option<u8> {
    if 0x30 <= b <= 0x39 {
        Some((b - 0x30) as u8)
    } else if 0x61 <= b <= 0x66 {
        Some((b - 0x61 + 10) as u8)
    } else if 0x41 <= b <= 0x46 {
        Some((b - 0x41 + 10) as u8)
    } else {
        None
    }
}

/// The byte a pair of hexadecimal digits stands for: sixteen times the high
/// digit plus the low one. Anything but two hexadecimal digits stands for
/// none.
pub open spec fn pair_value(high: u8, low: u8) -> Option<u8> {
    match (digit_value(high), digit_value(low)) {
        (Some(h), Some(l)) => Some((16 * h + l) as u8),
        _ => None,
    }
}

/// Pair `i` of a digit sequence, read as a byte.
pub open spec fn pair_at(d: Seq<u8>, i: int) -> Option<u8> {
    pair_value(d[2 * i], d[2 * i + 1])
}

/// Whether the first `k` pairs of a digit sequence all read as bytes.
pub open spec fn pairs_valid(d: Seq<u8>, k: int) -> bool {
    forall|j: int| 0 <= j < k ==> (#[trigger] pair_at(d, j)) is Some
}

/// The 32 bytes that 64 valid digits stand for.
pub open spec fn pair_bytes(d: Seq<u8>) -> Seq<u8> {
    Seq::new(32, |i: int| pair_at(d, i)->0)
}

/// Whether position `p` of UTF-8 text falls inside a character, that is on a
/// continuation byte.
pub open spec fn inside_char(d: Seq<u8>, p: int) -> bool {
    0 < p < d.len() && 0x80 <= d[p] < 0xC0
}

/// Whether cutting 64 digit bytes into pairs, in order and up to the first
/// pair that does not read as a byte, cuts inside a character. Text can only
/// be cut at character boundaries, so such digits cannot be read pair by
/// pair at all.
pub open spec fn cuts_inside_char(d: Seq<u8>) -> bool {
    d.len() == 64 && exists|i: int| 0 <= i < 32 && pairs_valid(d, i) && #[trigger] pair_cuts(d, i)
}

/// Whether cutting pair `i` out of digit bytes cuts inside a character.
pub open spec fn pair_cuts(d: Seq<u8>, i: int) -> bool {
    inside_char(d, 2 * i) || inside_char(d, 2 * i + 2)
}

/// What is wrong with the digit bytes of a fingerprint, if anything: their
/// number, or else the first pair that is not two hexadecimal digits.
pub open spec fn digits_error(d: Seq<u8>) -> Option<FingerprintError> {
    if d.len() != 64 {
        Some(FingerprintError::WrongLength { found: d.len() as usize })
    } else if pairs_valid(d, 32) {
        None
    } else {
        let k = choose|k: int| 0 <= k < 32 && pairs_valid(d, k) && pair_at(d, k) is None;
        Some(FingerprintError::InvalidByte { index: k as usize, high: d[2 * k], low: d[2 * k + 1] })
    }
}

proof fn lemma_invalid_pair_from(d: Seq<u8>, k: int)
    requires
        d.len() == 64,
        !pairs_valid(d, 32),
        0 <= k <= 32,
        pairs_valid(d, k),
    ensures
        exists|j: int| 0 <= j < 32 && pairs_valid(d, j) && pair_at(d, j) is None,
    decreases 32 - k,
{
    if pair_at(d, k) is None {
        assert(0 <= k < 32 && pairs_valid(d, k) && pair_at(d, k) is None);
    } else {
        assert(pairs_valid(d, k + 1));
        lemma_invalid_pair_from(d, k + 1);
    }
}

/// When 64 digits are not all valid pairs, there is one first pair that is
/// not; `digits_error` names it.
pub proof fn lemma_first_invalid_pair(d: Seq<u8>)
    requires
        d.len() == 64,
        !pairs_valid(d, 32),
    ensures
        exists|k: int| 0 <= k < 32 && pairs_valid(d, k) && pair_at(d, k) is None,
        forall|k1: int, k2: int|
            0 <= k1 < 32 && pairs_valid(d, k1) && pair_at(d, k1) is None && 0 <= k2 < 32
                && pairs_valid(d, k2) && pair_at(d, k2) is None ==> k1 == k2,
{
    lemma_invalid_pair_from(d, 0);
    assert forall|k1: int, k2: int|
        0 <= k1 < 32 && pairs_valid(d, k1) && pair_at(d, k1) is None && 0 <= k2 < 32 && pairs_valid(
            d,
            k2,
        ) && pair_at(d, k2) is None implies k1 == k2 by {
        if k1 < k2 {
            assert(pair_at(d, k1) is Some);
        } else if k2 < k1 {
            assert(pair_at(d, k2) is Some);
        }
    }
}

/// The digit bytes of a fingerprint given as text.
pub open spec fn fingerprint_digits(value: Seq<char>, lenient: bool) -> Seq<u8> {
    hex_digits(utf8(value), lenient)
}

/// Drops the separators from `bytes`.
pub(crate) fn strip_separators(bytes: &[u8], lenient: bool) -> (digits: Vec<u8>)
    ensures
        digits@ == hex_digits(bytes@, lenient),
{
    let mut digits: Vec<u8> = Vec::new();
    let mut i: usize = 0;
    while i < bytes.len()
        invariant
            i <= bytes@.len(),
            digits@ == hex_digits(bytes@.take(i as int), lenient),
        decreases bytes.len() - i,
    {
        let b = bytes[i];
        proof {
            assert(bytes@.take(i + 1).drop_last() =~= bytes@.take(i as int));
        }
        let separator = b == 0x3A || b == 0x20 || (lenient && (b == 0x2D || b == 0x09 || b == 0x0A
            || b == 0x0D));
        if !separator {
            digits.push(b);
        }
        i = i + 1;
    }
    proof {
        assert(bytes@.take(bytes@.len() as int) =~= bytes@);
    }
    digits
}

/// The value of a hexadecimal digit.
fn digit(b: u8) -> (v: Option<u8>)
    ensures
        v == digit_value(b),
{
    if 0x30 <= b && b <= 0x39 {
        Some(b - 0x30)
    } else if 0x61 <= b && b <= 0x66 {
        Some(b - 0x61 + 10)
    } else if 0x41 <= b && b <= 0x46 {
        Some(b - 0x41 + 10)
    } else {
        None
    }
}

/// The byte a pair of hexadecimal digits stands for.
fn pair(high: u8, low: u8) -> (v: Option<u8>)
    ensures
        v == pair_value(high, low),
{
    match (digit(high), digit(low)) {
        (Some(h), Some(l)) => Some(16 * h + l),
        _ => None,
    }
}

/// Reads 64 digit bytes pair by pair into 32 bytes, stopping at the first
/// pair that is not two hexadecimal digits.
pub(crate) fn decode_pairs(d: &Vec<u8>) -> (res: Result<[u8; 32], FingerprintError>)
    requires
        d@.len() == 64,
    ensures
        pairs_valid(d@, 32) ==> (res matches Ok(fp) && fp@ == pair_bytes(d@)),
        forall|k: int|
            0 <= k < 32 && pairs_valid(d@, k) && pair_at(d@, k) is None ==> res == Err::<
                [u8; 32],
                FingerprintError,
            >(FingerprintError::InvalidByte { index: k as usize, high: d@[2 * k], low: d@[2 * k + 1] }),
{
    let mut fp = [0u8; 32];
    let mut k: usize = 0;
    while k < 32
        invariant
            d@.len() == 64,
            k <= 32,
            pairs_valid(d@, k as int),
            forall|j: int| 0 <= j < k ==> fp@[j] == pair_at(d@, j)->0,
        decreases 32 - k,
    {
        let high = d[2 * k];
        let low = d[2 * k + 1];
        match pair(high, low) {
            Some(v) => {
                fp[k] = v;
            },
            None => {
                proof {
                    assert forall|k2: int|
                        0 <= k2 < 32 && pairs_valid(d@, k2) && pair_at(d@, k2) is None implies k2
                        == k by {
                        if k2 < k {
                            assert(pair_at(d@, k2) is Some);
                        } else if k2 > k {
                            assert(pair_at(d@, k as int) is Some);
                        }
                    }
                }
                return Err(FingerprintError::InvalidByte { index: k, high, low });
            },
        }
        k = k + 1;
    }
    proof {
        assert(fp@ =~= pair_bytes(d@));
    }
    Ok(fp)
}

/// Whether a fingerprint text is one whose pairs cannot be cut out (see
/// [`cuts_inside_char`]); `lenient` says which separators it may hold.
pub fn fingerprint_cuts_inside_char(value: &str, lenient: bool) -> (cuts: bool)
    ensures
        cuts == cuts_inside_char(fingerprint_digits(value@, lenient)),
{
    let bytes = value.as_bytes();
    proof {
        assert(bytes@ == utf8(value@));
    }
    let d = strip_separators(bytes, lenient);
    if d.len() != 64 {
        return false;
    }
    let mut i: usize = 0;
    while i < 32
        invariant
            d@ == fingerprint_digits(value@, lenient),
            d@.len() == 64,
            i <= 32,
            pairs_valid(d@, i as int),
            forall|j: int| 0 <= j < i ==> !#[trigger] pair_cuts(d@, j),
        decreases 32 - i,
    {
        let at = 2 * i;
        let inside_start = at > 0 && 0x80 <= d[at] && d[at] < 0xC0;
        let inside_end = at + 2 < 64 && 0x80 <= d[at + 2] && d[at + 2] < 0xC0;
        if inside_start || inside_end {
            proof {
                assert(0 <= i < 32 && pairs_valid(d@, i as int) && pair_cuts(d@, i as int));
            }
            return true;
        }
        if pair(d[at], d[at + 1]).is_none() {
            proof {
                assert forall|k: int|
                    0 <= k < 32 && pairs_valid(d@, k) implies !#[trigger] pair_cuts(d@, k) by {
                    if k > i {
                        assert(pair_at(d@, i as int) is Some);
                    }
                }
            }
            return false;
        }
        i = i + 1;
    }
    false
}

/// Reads a SHA-256 fingerprint written as 64 hexadecimal digits, upper or
/// lower case, which colons, spaces, hyphens, tabs and line breaks may
/// separate (`AA:BB:CC:...` or `AABBCC...`).
///
/// The text is refused when, without its separators, it is not exactly 64
/// bytes long, and at the first pair of digits that is not a hexadecimal
/// byte. It must not be such that cutting it into pairs cuts a character.
pub fn parse_sha256_fingerprint(value: &str) -> (res: Result<[u8; 32], FingerprintError>)
    requires
        !cuts_inside_char(fingerprint_digits(value@, true)),
    ensures
        ({
            let d = fingerprint_digits(value@, true);
            &&& d.len() != 64 ==> res == Err::<[u8; 32], FingerprintError>(
                FingerprintError::WrongLength { found: d.len() as usize },
            )
            &&& d.len() == 64 && pairs_valid(d, 32) ==> (res matches Ok(fp) && fp@ == pair_bytes(d))
            &&& forall|k: int|
                d.len() == 64 && 0 <= k < 32 && pairs_valid(d, k) && pair_at(d, k) is None ==> res
                    == Err::<[u8; 32], FingerprintError>(
                    FingerprintError::InvalidByte { index: k as usize, high: d[2 * k], low: d[2 * k + 1] },
                )
            &&& res is Ok <==> digits_error(d) is None
            &&& res matches Err(e) ==> digits_error(d) == Some(e)
        }),
{
    let ghost d = fingerprint_digits(value@, true);
    proof {
        if d.len() == 64 && !pairs_valid(d, 32) {
            lemma_first_invalid_pair(d);
        }
    }
    let bytes = value.as_bytes();
    let digits = strip_separators(bytes, true);
    if digits.len() != 64 {
        return Err(FingerprintError::WrongLength { found: digits.len() });
    }
    decode_pairs(&digits)
}

/// The upper-case hexadecimal digit for a value below 16.
pub open spec fn hex_char(v: int) -> char {
    if v < 10 {
        (48 + v) as char
    } else {
        (55 + v) as char
    }
}

/// A byte as two upper-case hexadecimal digits.
pub open spec fn byte_text(b: u8) -> Seq<char> {
    seq![hex_char((b / 16) as int), hex_char((b % 16) as int)]
}

/// Bytes as upper-case hexadecimal pairs joined by colons, such as
/// `00:1F:A0`.
pub open spec fn colon_hex(bytes: Seq<u8>) -> Seq<char>
    decreases bytes.len(),
{
    if bytes.len() == 0 {
        Seq::empty()
    } else if bytes.len() == 1 {
        byte_text(bytes[0])
    } else {
        colon_hex(bytes.drop_last()) + seq![':'] + byte_text(bytes.last())
    }
}

/// The bytes of characters that are all ASCII.
pub open spec fn ascii_bytes(cs: Seq<char>) -> Seq<u8> {
    Seq::new(cs.len(), |i: int| cs[i] as u8)
}

proof fn lemma_colon_hex_ascii(bytes: Seq<u8>)
    ensures
        is_ascii_chars(colon_hex(bytes)),
    decreases bytes.len(),
{
    if bytes.len() > 1 {
        lemma_colon_hex_ascii(bytes.drop_last());
    }
}

/// The upper-case hexadecimal digit byte for a value below 16.
fn hex_digit_byte(v: u8) -> (b: u8)
    requires
        v < 16,
    ensures
        b == hex_char(v as int) as u8,
{
    if v < 10 {
        48 + v
    } else {
        55 + v
    }
}

/// Writes bytes as upper-case hexadecimal pairs joined by colons.
pub(crate) fn colon_hex_string(bytes: &[u8]) -> (s: String)
    ensures
        s@ == colon_hex(bytes@),
{
    let mut out: Vec<u8> = Vec::new();
    let mut i: usize = 0;
    while i < bytes.len()
        invariant
            i <= bytes@.len(),
            out@ == ascii_bytes(colon_hex(bytes@.take(i as int))),
        decreases bytes.len() - i,
    {
        let b = bytes[i];
        let ghost before = colon_hex(bytes@.take(i as int));
        if i > 0 {
            out.push(0x3A);
        }
        out.push(hex_digit_byte(b / 16));
        out.push(hex_digit_byte(b % 16));
        proof {
            let next = bytes@.take(i + 1);
            assert(next.drop_last() =~= bytes@.take(i as int));
            if i == 0 {
                assert(colon_hex(next) == byte_text(b));
            } else {
                assert(colon_hex(next) == before + seq![':'] + byte_text(b));
            }
            assert(out@ =~= ascii_bytes(colon_hex(next)));
        }
        i = i + 1;
    }
    let ghost cs = colon_hex(bytes@);
    proof {
        assert(bytes@.take(bytes@.len() as int) =~= bytes@);
        lemma_colon_hex_ascii(bytes@);
        vstd::utf8::is_ascii_chars_encode_utf8(cs);
        assert(out@ =~= encode_utf8(cs));
        vstd::utf8::encode_utf8_valid_utf8(cs);
        vstd::utf8::encode_utf8_decode_utf8(cs);
    }
    match string_from_utf8(out) {
        Some(s) => s,
        None => {
            proof {
                assert(false);
            }
            String::new()
        },
    }
}

/// Writes a fingerprint as 32 upper-case hexadecimal pairs joined by colons.
pub fn format_sha256_fingerprint(fingerprint: &[u8; 32]) -> (s: String)
    ensures
        s@ == colon_hex(fingerprint@),
{
    colon_hex_string(vstd::array::array_as_slice(fingerprint))
}

/// The SHA-256 digest of some bytes.
pub uninterp spec fn sha256(data: Seq<u8>) -> Seq<u8>;

/// `sha2::Sha256::digest`: the SHA-256 digest of `data`, converted from the
/// crate's 32-byte array type. The contract names the digest and claims
/// nothing more of it than that it is a function of `data`.
#[verifier::external_body]
pub(crate) fn sha256_digest(data: &[u8]) -> (digest: [u8; 32])
    ensures
        digest@ == sha256(data@),
{
    sha2::Sha256::digest(data).into()
}

/// The fingerprint of a DER-encoded certificate: its SHA-256 digest.
pub fn certificate_fingerprint(certificate: &[u8]) -> (fingerprint: [u8; 32])
    ensures
        fingerprint@ == sha256(certificate@),
{
    sha256_digest(certificate)
}

/// Whether two fingerprints are the same 32 bytes.
pub fn same_fingerprint(a: &[u8; 32], b: &[u8; 32]) -> (same: bool)
    ensures
        same <==> a@ == b@,
{
    let mut i: usize = 0;
    while i < 32
        invariant
            i <= 32,
            forall|j: int| 0 <= j < i ==> a@[j] == b@[j],
        decreases 32 - i,
    {
        if a[i] != b[i] {
            return false;
        }
        i = i + 1;
    }
    proof {
        assert(a@ =~= b@);
    }
    true
}

/// The message that refuses a server whose certificate has the fingerprint
/// `received` when `expected` was trusted.
pub open spec fn mismatch_message(expected: Seq<u8>, received: Seq<u8>) -> Seq<char> {
    "server certificate fingerprint mismatch; expected "@ + colon_hex(expected) + ", received "@
        + colon_hex(received)
}

/// Accepts a server certificate whose fingerprint is `received` exactly when
/// it is the trusted fingerprint `expected`; otherwise refuses it with a
/// message that shows both.
pub fn check_fingerprint(expected: &[u8; 32], received: &[u8; 32]) -> (res: Result<(), String>)
    ensures
        res is Ok <==> expected@ == received@,
        res matches Err(message) ==> message@ == mismatch_message(expected@, received@),
{
    if same_fingerprint(expected, received) {
        return Ok(());
    }
    let mut message = String::from_str("server certificate fingerprint mismatch; expected ");
    let expected_text = format_sha256_fingerprint(expected);
    message.append(expected_text.as_str());
    message.append(", received ");
    let received_text = format_sha256_fingerprint(received);
    message.append(received_text.as_str());
    Err(message)
}

/// Checks the certificate a server presents (DER bytes) against the trusted
/// fingerprint: it is accepted exactly when its SHA-256 digest is
/// `expected`.
pub fn verify_server_certificate(expected: &[u8; 32], end_entity: &[u8]) -> (res: Result<(), String>)
    ensures
        res is Ok <==> expected@ == sha256(end_entity@),
        res matches Err(message) ==> message@ == mismatch_message(expected@, sha256(end_entity@)),
{
    let received = certificate_fingerprint(end_entity);
    check_fingerprint(expected, &received)
}

/// The upper-case hexadecimal digit bytes of a value below 16.
pub open spec fn hex_byte(v: int) -> u8 {
    hex_char(v) as u8
}

/// The hexadecimal digit bytes of some bytes, two per byte, with nothing
/// between them.
pub open spec fn hex_pairs(bytes: Seq<u8>) -> Seq<u8>
    decreases bytes.len(),
{
    if bytes.len() == 0 {
        Seq::empty()
    } else {
        hex_pairs(bytes.drop_last()) + seq![
            hex_byte((bytes.last() / 16) as int),
            hex_byte((bytes.last() % 16) as int),
        ]
    }
}

proof fn lemma_hex_digits_concat(a: Seq<u8>, b: Seq<u8>, lenient: bool)
    ensures
        hex_digits(a + b, lenient) == hex_digits(a, lenient) + hex_digits(b, lenient),
    decreases b.len(),
{
    if b.len() == 0 {
        assert(a + b =~= a);
        assert(hex_digits(a, lenient) + hex_digits(b, lenient) =~= hex_digits(a, lenient));
    } else {
        lemma_hex_digits_concat(a, b.drop_last(), lenient);
        assert((a + b).drop_last() =~= a + b.drop_last());
        assert((a + b).last() == b.last());
        if !is_separator(b.last(), lenient) {
            assert(hex_digits(a, lenient) + hex_digits(b.drop_last(), lenient).push(b.last())
                =~= (hex_digits(a, lenient) + hex_digits(b.drop_last(), lenient)).push(b.last()));
        }
    }
}

proof fn lemma_ascii_bytes_concat(x: Seq<char>, y: Seq<char>)
    ensures
        ascii_bytes(x + y) == ascii_bytes(x) + ascii_bytes(y),
{
    assert(ascii_bytes(x + y) =~= ascii_bytes(x) + ascii_bytes(y));
}

proof fn lemma_hex_digits_of_colon_hex(fp: Seq<u8>, lenient: bool)
    ensures
        hex_digits(ascii_bytes(colon_hex(fp)), lenient) == hex_pairs(fp),
    decreases fp.len(),
{
    if fp.len() == 0 {
        assert(ascii_bytes(colon_hex(fp)) =~= Seq::<u8>::empty());
    } else {
        let b = fp.last();
        let tail = seq![hex_byte((b / 16) as int), hex_byte((b % 16) as int)];
        assert(ascii_bytes(byte_text(b)) =~= tail);
        assert(tail.drop_last() =~= seq![hex_byte((b / 16) as int)]);
        assert(seq![hex_byte((b / 16) as int)].drop_last() =~= Seq::<u8>::empty());
        lemma_hex_byte_digit((b / 16) as int);
        lemma_hex_byte_digit((b % 16) as int);
        assert(hex_digits(tail, lenient) =~= tail) by {
            reveal_with_fuel(hex_digits, 3);
        }
        if fp.len() == 1 {
            assert(fp.drop_last() =~= Seq::<u8>::empty());
            assert(hex_pairs(fp.drop_last()) =~= Seq::<u8>::empty());
            assert(hex_pairs(fp) =~= tail);
        } else {
            let head = colon_hex(fp.drop_last());
            lemma_hex_digits_of_colon_hex(fp.drop_last(), lenient);
            lemma_ascii_bytes_concat(head + seq![':'], byte_text(b));
            lemma_ascii_bytes_concat(head, seq![':']);
            assert(ascii_bytes(seq![':']) =~= seq![0x3Au8]);
            assert(seq![0x3Au8].drop_last() =~= Seq::<u8>::empty());
            assert(hex_digits(seq![0x3Au8], lenient) =~= Seq::<u8>::empty()) by {
                reveal_with_fuel(hex_digits, 2);
            }
            lemma_hex_digits_concat(ascii_bytes(head) + seq![0x3Au8], tail, lenient);
            lemma_hex_digits_concat(ascii_bytes(head), seq![0x3Au8], lenient);
            assert(hex_digits(ascii_bytes(head), lenient) + Seq::<u8>::empty() =~= hex_digits(
                ascii_bytes(head),
                lenient,
            ));
        }
    }
}

proof fn lemma_hex_pairs_index(fp: Seq<u8>)
    ensures
        hex_pairs(fp).len() == 2 * fp.len(),
        forall|i: int|
            #![trigger fp[i]]
            0 <= i < fp.len() ==> hex_pairs(fp)[2 * i] == hex_byte((fp[i] / 16) as int) && hex_pairs(
                fp,
            )[2 * i + 1] == hex_byte((fp[i] % 16) as int),
    decreases fp.len(),
{
    if fp.len() > 0 {
        lemma_hex_pairs_index(fp.drop_last());
        assert forall|i: int| #![trigger fp[i]] 0 <= i < fp.len() implies hex_pairs(fp)[2 * i]
            == hex_byte((fp[i] / 16) as int) && hex_pairs(fp)[2 * i + 1] == hex_byte(
            (fp[i] % 16) as int,
        ) by {
            if i < fp.len() - 1 {
                assert(fp.drop_last()[i] == fp[i]);
            }
        }
    }
}

proof fn lemma_hex_byte_digit(v: int)
    requires
        0 <= v < 16,
    ensures
        digit_value(hex_byte(v)) == Some(v as u8),
        hex_byte(v) < 0x80,
        !is_separator(hex_byte(v), true),
        !is_separator(hex_byte(v), false),
{
}

/// Writing bytes as colon-separated hexadecimal and reading the text back
/// gives the same bytes: for a 32-byte fingerprint, both the lenient reading
/// of a certificate fingerprint and the strict one of a configured
/// fingerprint accept the text and return the fingerprint.
pub proof fn format_then_parse(fp: Seq<u8>, lenient: bool)
    requires
        fp.len() == 32,
    ensures
        !cuts_inside_char(fingerprint_digits(colon_hex(fp), lenient)),
        digits_error(fingerprint_digits(colon_hex(fp), lenient)) is None,
        pair_bytes(fingerprint_digits(colon_hex(fp), lenient)) == fp,
{
    let cs = colon_hex(fp);
    lemma_colon_hex_ascii(fp);
    vstd::utf8::is_ascii_chars_encode_utf8(cs);
    assert(utf8(cs) =~= ascii_bytes(cs));
    lemma_hex_digits_of_colon_hex(fp, lenient);
    lemma_hex_pairs_index(fp);
    let d = fingerprint_digits(cs, lenient);
    assert(d == hex_pairs(fp));
    assert forall|i: int| 0 <= i < 32 implies #[trigger] pair_at(d, i) == Some(fp[i]) by {
        let b = fp[i];
        lemma_hex_byte_digit((b / 16) as int);
        lemma_hex_byte_digit((b % 16) as int);
        assert(d[2 * i] == hex_byte((b / 16) as int));
        assert(d[2 * i + 1] == hex_byte((b % 16) as int));
        assert(16 * (b / 16) + b % 16 == b);
    }
    assert(pairs_valid(d, 32));
    assert(pair_bytes(d) =~= fp);
    assert forall|k: int| 0 <= k < 64 implies d[k] < 0x80 by {
        let i = k / 2;
        lemma_hex_byte_digit((fp[i] / 16) as int);
        lemma_hex_byte_digit((fp[i] % 16) as int);
        if k % 2 == 0 {
            assert(k == 2 * i);
        } else {
            assert(k == 2 * i + 1);
        }
    }
    assert(!cuts_inside_char(d));
}

} // verus!
