use streamshare::client::endpoint::parse_fingerprint;
use streamshare::network::fingerprint::{
    check_fingerprint, certificate_fingerprint, format_sha256_fingerprint, parse_sha256_fingerprint,
    verify_server_certificate, FingerprintError,
};
use streamshare::server::endpoint::cert_fingerprint;

#[test]
fn parses_colon_separated_fingerprint() {
    let input = "00:01:02:03:04:05:06:07:08:09:0A:0B:0C:0D:0E:0F:10:11:12:13:14:15:16:17:18:19:1A:1B:1C:1D:1E:1F";

    let parsed = parse_sha256_fingerprint(input).unwrap();

    assert_eq!(parsed[0], 0x00);
    assert_eq!(parsed[31], 0x1F);
}

#[test]
fn rejects_wrong_length() {
    assert!(parse_sha256_fingerprint("AA:BB").is_err());
}

#[test]
fn rejects_invalid_hexadecimal() {
    let input = "ZZ".repeat(32);

    assert!(parse_sha256_fingerprint(&input).is_err());
}

fn counting_bytes() -> [u8; 32] {
    let mut bytes = [0u8; 32];
    for (i, b) in bytes.iter_mut().enumerate() {
        *b = i as u8;
    }
    bytes
}

#[test]
fn parses_plain_lowercase_and_separated_forms_alike() {
    let plain = "000102030405060708090a0b0c0d0e0f101112131415161718191a1b1c1d1e1f";
    let spaced = "00 01-02\t03\n04\r05:06 07 08 09 0A 0B 0C 0D 0E 0F 10 11 12 13 14 15 16 17 18 19 1A 1B 1C 1D 1E 1F";
    assert_eq!(parse_sha256_fingerprint(plain).unwrap(), counting_bytes());
    assert_eq!(parse_sha256_fingerprint(spaced).unwrap(), counting_bytes());
}

#[test]
fn wrong_length_reports_the_digit_count() {
    assert_eq!(
        parse_sha256_fingerprint("AA:BB"),
        Err(FingerprintError::WrongLength { found: 4 })
    );
}

#[test]
fn invalid_pair_reports_the_first_bad_pair() {
    let mut text = "00".repeat(32);
    text.replace_range(6..8, "G1");
    text.replace_range(10..12, "ZZ");
    assert_eq!(
        parse_sha256_fingerprint(&text),
        Err(FingerprintError::InvalidByte { index: 3, high: b'G', low: b'1' })
    );
}

#[test]
fn plus_sign_pairs_are_refused() {
    let text = format!("+F{}", "00".repeat(31));
    assert_eq!(
        parse_sha256_fingerprint(&text),
        Err(FingerprintError::InvalidByte { index: 0, high: b'+', low: b'F' })
    );
    let all_plus = "+A".repeat(32);
    assert!(parse_sha256_fingerprint(&all_plus).is_err());
    assert!(parse_fingerprint(all_plus).is_err());
}

#[test]
fn formats_as_upper_case_colon_pairs() {
    let text = format_sha256_fingerprint(&counting_bytes());
    assert_eq!(
        text,
        "00:01:02:03:04:05:06:07:08:09:0A:0B:0C:0D:0E:0F:10:11:12:13:14:15:16:17:18:19:1A:1B:1C:1D:1E:1F"
    );
}

#[test]
fn format_then_parse_gives_the_bytes_back() {
    let mut bytes = [0u8; 32];
    for (i, b) in bytes.iter_mut().enumerate() {
        *b = (i as u8).wrapping_mul(37).wrapping_add(200);
    }
    let text = format_sha256_fingerprint(&bytes);
    assert_eq!(parse_sha256_fingerprint(&text).unwrap(), bytes);
}

#[test]
fn endpoint_parser_keeps_colons_and_spaces_only() {
    let text = "00:01:02:03:04:05:06:07:08:09:0a:0b:0c:0d:0e:0f:10:11:12:13:14:15:16:17:18:19:1a:1b:1c:1d:1e:1f";
    assert_eq!(parse_fingerprint(text.to_string()).unwrap(), counting_bytes().to_vec());
    let hyphens = "00-01-02-03-04-05-06-07-08-09-0a-0b-0c-0d-0e-0f-10-11-12-13-14-15-16-17-18-19-1a-1b-1c-1d-1e-1f";
    assert_eq!(
        parse_fingerprint(hyphens.to_string()),
        Err(FingerprintError::WrongLength { found: 95 })
    );
    let minus = format!("-1{}", "00".repeat(31));
    assert_eq!(
        parse_fingerprint(minus),
        Err(FingerprintError::InvalidByte { index: 0, high: b'-', low: b'1' })
    );
}

#[test]
fn certificate_fingerprint_is_sha256() {
    // SHA-256 of "abc".
    let digest = certificate_fingerprint(b"abc");
    assert_eq!(
        format_sha256_fingerprint(&digest),
        "BA:78:16:BF:8F:01:CF:EA:41:41:40:DE:5D:AE:22:23:B0:03:61:A3:96:17:7A:9C:B4:10:FF:61:F2:00:15:AD"
    );
    assert_eq!(
        cert_fingerprint(b"abc"),
        "BA:78:16:BF:8F:01:CF:EA:41:41:40:DE:5D:AE:22:23:B0:03:61:A3:96:17:7A:9C:B4:10:FF:61:F2:00:15:AD"
    );
}

#[test]
fn server_certificate_is_checked_against_the_trusted_fingerprint() {
    let trusted = certificate_fingerprint(b"abc");
    assert_eq!(verify_server_certificate(&trusted, b"abc"), Ok(()));
    let refused = verify_server_certificate(&trusted, b"abd").unwrap_err();
    assert!(refused.starts_with(
        "server certificate fingerprint mismatch; expected BA:78:16:BF"
    ));
    assert!(refused.contains(", received "));
    assert_eq!(check_fingerprint(&trusted, &trusted), Ok(()));
    let zeros = [0u8; 32];
    assert_eq!(
        check_fingerprint(&zeros, &trusted).unwrap_err(),
        format!(
            "server certificate fingerprint mismatch; expected {}, received {}",
            format_sha256_fingerprint(&zeros),
            format_sha256_fingerprint(&trusted)
        )
    );
}
