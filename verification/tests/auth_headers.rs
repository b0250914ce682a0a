use kalshi_terminal::auth::{access_headers, access_headers_from_signature, access_message, AuthError};
use kalshi_terminal::decimal::{push_decimal_i64, push_decimal_u128};

#[test]
fn decimal_rendering_matches_display() {
    for n in [0i64, 7, 10, 99, 100, 1234567890, -1, -10, i64::MIN, i64::MAX] {
        let mut s = String::from("x");
        push_decimal_i64(&mut s, n);
        assert_eq!(s, format!("x{}", n));
    }
    let mut s = String::new();
    push_decimal_u128(&mut s, u128::MAX);
    assert_eq!(s, u128::MAX.to_string());
}

#[test]
fn access_message_is_time_then_request_line() {
    assert_eq!(access_message(1703123456789), "1703123456789GET/trade-api/ws/v2");
    assert_eq!(access_message(0), "0GET/trade-api/ws/v2");
}

#[test]
fn headers_carry_key_time_and_base64_signature() {
    let h = access_headers_from_signature("key-id", 1703123456789, b"hello");
    assert_eq!(h.key, "key-id");
    assert_eq!(h.timestamp, "1703123456789");
    assert_eq!(h.signature, "aGVsbG8=");
    let h = access_headers_from_signature("k", 5, &[0xff, 0xfe, 0xfd, 0x00]);
    assert_eq!(h.signature, "//79AA==");
    let h = access_headers_from_signature("k", 5, &[]);
    assert_eq!(h.signature, "");
}

#[test]
fn signing_with_a_usable_key_gives_a_key_sized_signature() {
    let key = rsa::RsaPrivateKey::new(&mut rsa::rand_core::OsRng, 768).unwrap();
    let h = access_headers("abc", key, 42).unwrap();
    assert_eq!(h.key, "abc");
    assert_eq!(h.timestamp, "42");
    // 96 bytes of signature: 128 characters of base64
    assert_eq!(h.signature.len(), 128);
}

#[test]
fn signing_with_a_key_too_small_for_pss_fails() {
    let key = rsa::RsaPrivateKey::new(&mut rsa::rand_core::OsRng, 512).unwrap();
    assert_eq!(access_headers("abc", key, 42).unwrap_err(), AuthError::SigningFailed);
}
