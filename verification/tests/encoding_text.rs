use bridger::encoding::{decimal_string, encode_hex, hash_from_hex, is_hash, parse_hash, to_hex};

#[test]
fn hex_is_lowercase_two_digits_a_byte() {
    assert_eq!(encode_hex(&[0x00, 0x0f, 0xab, 0xff]), "000fabff");
    assert_eq!(encode_hex(&[]), "");
}

#[test]
fn prefixed_hex_keeps_leading_zeros() {
    assert_eq!(to_hex(&[0x00, 0x01]), "0x0001");
    assert_eq!(to_hex(&[]), "0x");
}

#[test]
fn decimal_of_numbers() {
    assert_eq!(decimal_string(0), "0");
    assert_eq!(decimal_string(7), "7");
    assert_eq!(decimal_string(10), "10");
    assert_eq!(decimal_string(11001), "11001");
    assert_eq!(decimal_string(u64::MAX), "18446744073709551615");
}

#[test]
fn hash_text_with_and_without_prefix() {
    let digits = "00112233445566778899aabbccddeeff00112233445566778899AABBCCDDEEFF";
    let mut expected = [0u8; 32];
    for i in 0..16 {
        expected[i] = (i as u8) * 0x11;
        expected[16 + i] = (i as u8) * 0x11;
    }
    assert_eq!(hash_from_hex(digits), expected);
    assert_eq!(hash_from_hex(&format!("0x{}", digits)), expected);
}

#[test]
fn hash_text_plus_sign_field() {
    // a two-character field may be a `+` sign and one digit, as u8::from_str_radix reads it
    let text = format!("+f{}", "00".repeat(31));
    let h = parse_hash(&text).unwrap();
    assert_eq!(h[0], 0x0f);
    assert!(h[1..].iter().all(|b| *b == 0));
}

#[test]
fn hash_text_rejections() {
    assert!(!is_hash(""));
    assert!(!is_hash("0x"));
    assert!(!is_hash(&"0".repeat(63)));
    assert!(!is_hash(&"0".repeat(65)));
    assert!(!is_hash(&format!("0x{}", "0".repeat(62))));
    assert!(!is_hash(&format!("{}g", "0".repeat(63))));
    assert!(!is_hash(&format!("-1{}", "0".repeat(62))));
    assert!(parse_hash(&format!("0X{}", "0".repeat(64))).is_none());
    assert!(is_hash(&"0".repeat(64)));
}
