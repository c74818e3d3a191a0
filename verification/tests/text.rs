use nexus_cli::text::{decimal_string, hex_encode, text_contains};

#[test]
fn decimal_renders_numbers() {
    assert_eq!(decimal_string(0), "0");
    assert_eq!(decimal_string(7), "7");
    assert_eq!(decimal_string(10), "10");
    assert_eq!(decimal_string(1234567890), "1234567890");
    assert_eq!(decimal_string(u64::MAX), "18446744073709551615");
}

#[test]
fn hex_renders_bytes() {
    assert_eq!(hex_encode(&[]), "");
    assert_eq!(hex_encode(&[0x00, 0x0f, 0xa0, 0xff]), "000fa0ff");
}

#[test]
fn contains_finds_substrings() {
    assert!(text_contains("error: RATE_LIMITED: slow down", "RATE_LIMITED:"));
    assert!(text_contains("RATE_LIMITED:", "RATE_LIMITED:"));
    assert!(!text_contains("RATE_LIMITED", "RATE_LIMITED:"));
    assert!(!text_contains("", "x"));
    assert!(text_contains("abc", ""));
    assert!(text_contains("ééx", "éx"));
}
