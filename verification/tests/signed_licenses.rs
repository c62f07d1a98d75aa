use data_encoding::{BASE32_NOPAD, BASE64URL_NOPAD};
use ed25519_compact::{KeyPair, Seed};
use symbolica_license::calendar::{parse_expiration, INVALID_DATE};
use symbolica_license::messages::OUTDATED_LICENSE_KEY_ERROR;
use symbolica_license::signature::SIGNATURE_LEN;
use symbolica_license::signed::{
    decode_offline, decode_offline_signature, verify, verify_at, verify_with_key, Claims, Purpose,
    DOMAIN, ENCODED_SIGNATURE_LEN, PREFIX,
};

fn issuer() -> KeyPair {
    KeyPair::from_seed(Seed::new([42; 32]))
}

fn payload(kind: u8, expires: u32, user: u64, package: &str) -> Vec<u8> {
    let mut payload = vec![kind];
    payload.extend_from_slice(&expires.to_be_bytes());
    payload.extend_from_slice(&user.to_be_bytes());
    payload.extend_from_slice(package.as_bytes());
    payload
}

fn sign(payload: &[u8]) -> String {
    let mut message = DOMAIN.as_bytes().to_vec();
    message.extend_from_slice(payload);
    let mut bytes = payload.to_vec();
    bytes.extend_from_slice(issuer().sk.sign(message, None).as_ref());
    format!("{PREFIX}{}", BASE64URL_NOPAD.encode(&bytes))
}

fn group_signature(signature: &[u8]) -> String {
    let encoded = BASE32_NOPAD.encode(signature);
    encoded
        .as_bytes()
        .chunks(8)
        .map(|group| std::str::from_utf8(group).unwrap())
        .collect::<Vec<_>>()
        .join("-")
}

fn sign_offline(user: u64, date: &str) -> String {
    let p = payload(1, parse_expiration(date).unwrap(), user, "");
    let mut message = DOMAIN.as_bytes().to_vec();
    message.extend_from_slice(&p);
    format!(
        "S-{user}-{date}-{}",
        BASE32_NOPAD.encode(issuer().sk.sign(message, None).as_ref())
    )
}

fn check(token: &str, purpose: Purpose<'_>, now: u64) -> Result<Claims, String> {
    verify_with_key(
        token,
        purpose,
        now,
        &BASE64URL_NOPAD.encode(issuer().pk.as_ref()),
    )
}

#[test]
fn readable_offline_round_trip_and_expiration_boundary() {
    let token = sign_offline(u64::MAX, "2030.01.01");
    // Catches serialization and signing drift.
    assert_eq!(
        token,
        "S-18446744073709551615-2030.01.01-GAOSLAUT2OILZPBWRLPQNFWSKVU2FBE2PK6RKPXSL3RKZ6CXPT6RV2EG6A7ZJ7Y7O4XKQQPJLBCPHSUM6EI5EA27GIUTYXE2QZUEKCI"
    );
    assert_eq!(token.len(), 137);
    for user in [1, 123, 1_000_000_000, u64::MAX] {
        let token = sign_offline(user, "2030.01.01");
        assert_eq!(
            check(&token, Purpose::Offline, 1_893_455_999).unwrap(),
            Claims {
                user_id: user,
                expires_at: 1_893_456_000
            }
        );
    }
    for now in [1_893_456_000, 1_893_456_001, u64::MAX] {
        assert!(check(&token, Purpose::Offline, now)
            .unwrap_err()
            .contains("expired"));
    }
    assert!(check(&token, Purpose::Oem("my_crate"), 0).is_err());
    assert!(verify(&token, Purpose::Offline)
        .unwrap_err()
        .contains("signature"));
}

#[test]
fn readable_offline_fields_and_signature_are_authenticated() {
    let token = sign_offline(123, "2030.01.01");
    assert_eq!(token.len(), 120);
    let signature = token.strip_prefix("S-123-2030.01.01-").unwrap();
    assert!(!signature.contains('-'));
    for changed in [
        token.replace("S-123-", "S-124-"),
        token.replace("2030.01.01", "2030.01.02"),
    ] {
        assert!(check(&changed, Purpose::Offline, 0)
            .unwrap_err()
            .contains("signature"));
    }
    let bytes = decode_offline_signature(signature).unwrap();
    for i in 0..bytes.len() {
        let mut changed = bytes.clone();
        changed[i] ^= 1;
        let token = format!("S-123-2030.01.01-{}", group_signature(&changed));
        assert!(
            check(&token, Purpose::Offline, 0).is_err(),
            "signature byte {i}"
        );
    }
}

#[test]
fn uppercase_base32_accepts_optional_signature_grouping() {
    let bytes = [0xfb; SIGNATURE_LEN];
    let grouped = group_signature(&bytes);
    assert!(grouped
        .bytes()
        .all(|b| b.is_ascii_uppercase() || matches!(b, b'2'..=b'7' | b'-')));
    assert!(!grouped.contains("--"));
    assert_eq!(decode_offline_signature(&grouped).unwrap(), bytes);
    assert_eq!(
        decode_offline_signature(&BASE32_NOPAD.encode(&bytes)).unwrap(),
        bytes
    );
    for index in (8..grouped.len()).step_by(9) {
        for separator in [".", "_", " ", "--"] {
            let mut bad = grouped.clone();
            bad.replace_range(index..index + 1, separator);
            assert!(
                decode_offline_signature(&bad).is_err(),
                "separator {index}: {separator:?}"
            );
        }
    }
    for invalid in ["a", "0", "1", "8", "9", "_", "=", "-"] {
        let mut bad = grouped.clone();
        bad.replace_range(..1, invalid);
        assert!(decode_offline_signature(&bad).is_err(), "symbol {invalid}");
    }
    assert!(decode_offline_signature(&grouped.to_ascii_lowercase()).is_err());
    // Canonical unpadded Base32 requires the final three unused bits to be zero.
    let mut noncanonical = group_signature(&[0; SIGNATURE_LEN]);
    noncanonical.pop();
    noncanonical.push('B');
    assert!(decode_offline_signature(&noncanonical).is_err());
    for group_len in [1, 4, 8, 16, ENCODED_SIGNATURE_LEN] {
        let valid = sign_offline(u64::MAX, "2030.01.01");
        let (header, signature) = valid.rsplit_once('-').unwrap();
        let grouped = signature
            .as_bytes()
            .chunks(group_len)
            .map(|group| std::str::from_utf8(group).unwrap())
            .collect::<Vec<_>>()
            .join("-");
        assert!(check(&format!("{header}-{grouped}"), Purpose::Offline, 0).is_ok());
    }
    for bad in [format!("-{grouped}"), format!("{grouped}-")] {
        assert!(decode_offline_signature(&bad).is_err());
    }
    let valid = sign_offline(123, "2030.01.01");
    assert!(check(&valid.replacen("S-", "S", 1), Purpose::Offline, 0).is_err());
    assert!(check(&valid.replace('-', ""), Purpose::Offline, 0).is_err());
}

#[test]
fn offline_dates_follow_the_utc_calendar() {
    for (date, seconds) in [
        ("1970.01.02", 86400),
        ("2000.02.29", 951782400),
        ("2024.02.29", 1709164800),
        ("2030.01.01", 1893456000),
        ("2100.03.01", 4107542400),
        ("2106.02.07", 4294944000),
    ] {
        assert_eq!(parse_expiration(date).unwrap(), seconds, "{date}");
    }
    for date in [
        "1970.01.01",
        "1969.12.31",
        "2106.02.08",
        "9999.01.01",
        "2023.02.29",
        "2100.02.29",
        "2030.04.31",
        "2030.00.01",
        "2030.13.01",
        "2030.01.00",
        "2030.1.01",
        "2030-01-01",
        "abcd.ef.gh",
        "2030.01.é",
    ] {
        assert!(parse_expiration(date).is_err(), "{date}");
    }
}

#[test]
fn readable_offline_rejects_malformed_fields() {
    let valid = sign_offline(123, "2030.01.01");
    for user in [
        "",
        "0",
        "0123",
        "+123",
        "-123",
        "18446744073709551616",
        "１２３",
        "1 23",
    ] {
        assert!(
            check(
                &valid.replace("S-123-", &format!("S-{user}-")),
                Purpose::Offline,
                0
            )
            .is_err(),
            "{user}"
        );
    }
    for token in [
        "S-123",
        "S-123-2030.01.01",
        "S-123-2030.01.01-",
        "SYMBOLICA2-123-2030.01.01-AAAA",
        "S-123-2030.01.01-AAAA",
    ] {
        assert!(check(token, Purpose::Offline, 0).is_err());
    }
    assert!(check(&(valid.clone() + "="), Purpose::Offline, 0).is_err());
    assert!(check(&(valid + "\n"), Purpose::Offline, 0).is_err());
    // Binary SL1 tokens remain reserved for OEM activation.
    assert!(check(&sign(&payload(1, 1893456000, 123, "")), Purpose::Offline, 0).is_err());
}

#[test]
fn oem_is_bound_to_purpose_and_exact_crate() {
    let token = sign(&payload(2, 100, 1, "my_crate"));
    assert!(check(&token, Purpose::Oem("my_crate"), 99).is_ok());
    assert!(check(&token, Purpose::Oem("other_crate"), 99).is_err());
    assert!(check(&token, Purpose::Offline, 99).is_err());
    assert!(check(&token, Purpose::Oem("my_crate"), 100).is_err());
    assert!(check(&sign(&payload(1, 100, 1, "")), Purpose::Oem("my_crate"), 99).is_err());
}

#[test]
fn every_payload_and_signature_byte_is_authenticated() {
    let token = sign(&payload(2, 100, 1, "my_crate"));
    let original = BASE64URL_NOPAD
        .decode(token[PREFIX.len()..].as_bytes())
        .unwrap();
    for i in 0..original.len() {
        let mut bytes = original.clone();
        bytes[i] ^= 1;
        let changed = format!("{PREFIX}{}", BASE64URL_NOPAD.encode(&bytes));
        assert!(
            check(&changed, Purpose::Oem("my_crate"), 99).is_err(),
            "byte {i}"
        );
    }
    // A test issuer is never trusted by the production entry point, even in debug builds.
    assert!(verify(&token, Purpose::Oem("my_crate"))
        .unwrap_err()
        .contains("signature"));
}

#[test]
fn rejects_malformed_and_invalid_signed_claims() {
    for token in ["", "SL2.AAAA", "SL1.====", "SL1.a.b", "SL1.AAAA"] {
        assert!(check(token, Purpose::Offline, 0).is_err());
    }
    assert!(check(&format!("SL1.{}", "A".repeat(1000)), Purpose::Offline, 0).is_err());
    for p in [
        payload(0, 100, 1, ""),
        payload(1, 100, 0, ""),
        payload(1, 100, 1, "extra"),
        payload(1, 0, 1, ""),
    ] {
        assert!(check(&sign(&p), Purpose::Offline, 0).is_err());
    }
    for package in ["", "bad-crate", "x.y"] {
        assert!(check(
            &sign(&payload(2, 100, 1, package)),
            Purpose::Oem(package),
            0
        )
        .is_err());
    }
    // Library unlock signatures use another message format and cannot authorize licenses.
    let p = payload(1, 100, 1, "");
    let mut bytes = p.clone();
    bytes.extend_from_slice(issuer().sk.sign(p, None).as_ref());
    assert!(check(
        &format!("SL1.{}", BASE64URL_NOPAD.encode(&bytes)),
        Purpose::Offline,
        0
    )
    .is_err());
}

fn offline_error(token: &str) -> String {
    check(token, Purpose::Offline, 0).unwrap_err()
}

fn oem_error(token: &str, now: u64) -> String {
    check(token, Purpose::Oem("my_crate"), now).unwrap_err()
}

#[test]
fn each_offline_error_has_its_text() {
    let valid = sign_offline(123, "2030.01.01");
    assert_eq!(
        offline_error("SYMBOLICA2-1-2030.01.01-A"),
        OUTDATED_LICENSE_KEY_ERROR
    );
    assert_eq!(offline_error("SL2.AAAA"), OUTDATED_LICENSE_KEY_ERROR);
    assert_eq!(
        offline_error("SL1.AAAA"),
        "Invalid signed Symbolica offline license format"
    );
    assert_eq!(
        offline_error(&format!("S-{}", "1".repeat(238))),
        "Signed Symbolica license is too long"
    );
    assert_eq!(offline_error("S-123"), "Missing offline expiration date");
    assert_eq!(
        offline_error("S-123-2030.01.01"),
        "Missing offline license signature"
    );
    assert_eq!(
        offline_error("S-0-2030.01.01-A"),
        "Invalid offline license user ID"
    );
    assert_eq!(offline_error("S-1-2030.02.30-A"), INVALID_DATE);
    assert_eq!(
        INVALID_DATE,
        "Invalid offline expiration date: expected YYYY.MM.DD within the supported timestamp range"
    );
    assert_eq!(
        offline_error("S-1-2030.01.01-"),
        "Invalid offline signature length or grouping"
    );
    assert_eq!(
        offline_error("S-1-2030.01.01-A--A"),
        "Invalid offline signature length or grouping"
    );
    assert_eq!(
        offline_error("S-1-2030.01.01-AAAA"),
        "Invalid offline signature length"
    );
    assert_eq!(
        offline_error(&valid.to_ascii_lowercase().replacen("s-", "S-", 1)),
        "Invalid signed Symbolica license encoding"
    );
    assert_eq!(
        offline_error(&valid.replace("S-123-", "S-124-")),
        "Invalid signed Symbolica license signature"
    );
    assert_eq!(
        check(&valid, Purpose::Offline, 1_893_456_000).unwrap_err(),
        "Signed Symbolica license has expired; request a new key"
    );
}

#[test]
fn each_oem_error_has_its_text() {
    assert_eq!(oem_error("S-1-2030.01.01-A", 0), OUTDATED_LICENSE_KEY_ERROR);
    assert_eq!(
        oem_error(&format!("SL1.{}", "A".repeat(445)), 0),
        "Signed Symbolica license is too long"
    );
    // The longest text that is not refused for its length cannot be decoded for it.
    assert_eq!(
        oem_error(&format!("SL1.{}", "A".repeat(441)), 0),
        "Invalid signed Symbolica license encoding"
    );
    assert_eq!(
        oem_error("SL1.====", 0),
        "Invalid signed Symbolica license encoding"
    );
    assert_eq!(
        oem_error("SL1.AAAA", 0),
        "Signed Symbolica license is truncated"
    );
    assert_eq!(
        oem_error(&sign(&payload(1, 100, 1, "my_crate")), 0),
        "Signed Symbolica license has the wrong purpose or payload length"
    );
    assert_eq!(
        oem_error(&sign(&payload(2, 100, 1, "other_crate")), 0),
        "OEM license does not match the calling crate"
    );
    assert_eq!(
        oem_error(&sign(&payload(2, 100, 0, "my_crate")), 0),
        "Signed Symbolica license has an invalid user ID"
    );
    assert_eq!(
        oem_error(&sign(&payload(2, 100, 1, "my_crate")), 100),
        "Signed Symbolica license has expired; request a new key"
    );
}

#[test]
fn a_public_key_has_to_be_one() {
    let token = sign(&payload(2, 100, 1, "my_crate"));
    assert_eq!(
        verify_with_key(&token, Purpose::Oem("my_crate"), 0, "*").unwrap_err(),
        "Invalid compiled Symbolica public key"
    );
    assert_eq!(
        verify_with_key(&token, Purpose::Oem("my_crate"), 0, "AAAA").unwrap_err(),
        "Invalid compiled Symbolica public key length"
    );
    assert_eq!(
        verify_with_key(&token, Purpose::Oem("my_crate"), 0, &"A".repeat(43)).unwrap_err(),
        "Invalid signed Symbolica license signature"
    );
}

#[test]
fn the_clock_has_to_be_past_the_epoch() {
    let token = sign_offline(123, "2030.01.01");
    assert_eq!(
        verify_at(&token, Purpose::Offline, None).unwrap_err(),
        "System clock is before the Unix epoch"
    );
    assert_eq!(
        verify_at(&token, Purpose::Offline, Some(0)).unwrap_err(),
        "Invalid signed Symbolica license signature"
    );
}

#[test]
fn a_license_is_valid_until_it_expires() {
    let token = sign(&payload(2, 100, 7, "my_crate"));
    for now in [0, 1, 99] {
        assert_eq!(
            check(&token, Purpose::Oem("my_crate"), now),
            Ok(Claims {
                user_id: 7,
                expires_at: 100
            })
        );
    }
    for now in [100, 101, u64::MAX] {
        assert!(check(&token, Purpose::Oem("my_crate"), now).is_err());
    }
}

#[test]
fn a_key_serves_one_purpose() {
    let offline = sign_offline(123, "2030.01.01");
    assert!(check(&offline, Purpose::Offline, 0).is_ok());
    assert!(check(&offline, Purpose::Oem("my_crate"), 0).is_err());
    let oem = sign(&payload(2, 100, 1, "my_crate"));
    assert!(check(&oem, Purpose::Oem("my_crate"), 0).is_ok());
    assert!(check(&oem, Purpose::Offline, 0).is_err());
    assert!(check(&oem, Purpose::Oem("my_crate2"), 0).is_err());
}

#[test]
fn an_oem_key_may_name_the_longest_crate() {
    let name = "x".repeat(255);
    let token = sign(&payload(2, 100, 1, &name));
    assert_eq!(token.len(), 4 + 443);
    assert_eq!(
        check(&token, Purpose::Oem(&name), 0),
        Ok(Claims {
            user_id: 1,
            expires_at: 100
        })
    );
}

#[test]
fn the_signed_bytes_of_an_offline_key_are_its_fields() {
    let token = sign_offline(258, "1970.01.02");
    let bytes = decode_offline(&token).unwrap();
    assert_eq!(bytes.len(), 13 + SIGNATURE_LEN);
    assert_eq!(&bytes[..13], &payload(1, 86400, 258, "")[..]);
}

#[test]
fn separators_do_not_change_a_signature() {
    let encoded = BASE32_NOPAD.encode(&[7; SIGNATURE_LEN]);
    let every = encoded
        .chars()
        .map(|c| c.to_string())
        .collect::<Vec<_>>()
        .join("-");
    assert_eq!(every.len(), 205);
    assert_eq!(
        decode_offline_signature(&every),
        decode_offline_signature(&encoded)
    );
}

#[test]
fn dates_are_ordered_and_follow_each_other() {
    let days = [
        "2000.02.27",
        "2000.02.28",
        "2000.02.29",
        "2000.03.01",
        "2000.03.02",
    ];
    for pair in days.windows(2) {
        assert_eq!(
            parse_expiration(pair[1]).unwrap() - parse_expiration(pair[0]).unwrap(),
            86400
        );
    }
    assert_eq!(
        parse_expiration("2001.01.01").unwrap() - parse_expiration("2000.12.31").unwrap(),
        86400
    );
    assert_eq!(
        parse_expiration("2000.12.31").unwrap() - parse_expiration("2000.01.01").unwrap(),
        365 * 86400
    );
}
