use nexus_cli::keys::{
    choose_signing_key, decode_signing_key, resolve_signing_key, encode_signing_key, get_verifying_key,
    is_valid_eth_address, KeyChoice, KeyError, SigningKey, StoredKey,
};

fn from_hex(s: &str) -> Vec<u8> {
    (0..s.len()).step_by(2).map(|i| u8::from_str_radix(&s[i..i + 2], 16).unwrap()).collect()
}

#[test]
fn test_is_valid_eth_address() {
    assert!(is_valid_eth_address("0x1234567890abcdef1234567890abcdef12345678"));
    assert!(!is_valid_eth_address("0x123")); // Too short
    assert!(!is_valid_eth_address("1234567890abcdef1234567890abcdef12345678")); // No 0x prefix
    assert!(!is_valid_eth_address("0x1234567890abcdef1234567890abcdef1234567g")); // Invalid character
}

#[test]
fn test_key_save_load() {
    let original_key = SigningKey::generate();
    let saved = encode_signing_key(&original_key);
    let loaded_key = decode_signing_key(&saved).unwrap();
    assert_eq!(original_key.to_bytes(), loaded_key.to_bytes());
}

#[test]
fn eth_address_accepts_upper_case_digits() {
    assert!(is_valid_eth_address("0xABCDEF7890abcdef1234567890ABCDEF12345678"));
}

#[test]
fn eth_address_rejects_upper_case_prefix() {
    assert!(!is_valid_eth_address("0X1234567890abcdef1234567890abcdef12345678"));
}

#[test]
fn eth_address_rejects_wrong_length() {
    assert!(!is_valid_eth_address("0x1234567890abcdef1234567890abcdef123456789"));
    assert!(!is_valid_eth_address(""));
}

#[test]
fn eth_address_rejects_non_ascii() {
    // 42 bytes, but a non-hexadecimal character among them.
    assert!(!is_valid_eth_address("0x1234567890abcdef1234567890abcdef123456é"));
}

#[test]
fn decode_rejects_wrong_length() {
    assert!(matches!(decode_signing_key(&[0u8; 31]), Err(KeyError::InvalidLength)));
    assert!(matches!(decode_signing_key(&[0u8; 33]), Err(KeyError::InvalidLength)));
    assert!(matches!(decode_signing_key(&[]), Err(KeyError::InvalidLength)));
    assert_eq!(KeyError::InvalidLength.message(), "Invalid key file length");
}

#[test]
fn decode_keeps_bytes() {
    let bytes: Vec<u8> = (0u8..32).collect();
    let key = decode_signing_key(&bytes).unwrap();
    assert_eq!(key.to_bytes().to_vec(), bytes);
    assert_eq!(encode_signing_key(&key), bytes);
}

#[test]
fn verifying_key_matches_rfc8032_vector() {
    let secret = from_hex("9d61b19deffd5a60ba844af492ec2cc44449c5697b326919703bac031cae7f60");
    let key = decode_signing_key(&secret).unwrap();
    let public = get_verifying_key(&key).to_bytes();
    assert_eq!(
        public.to_vec(),
        from_hex("d75a980182b10ab7d54bfed3c964073a0ee172f3daa62325af021a68f707511a")
    );
}

#[test]
fn generated_keys_differ() {
    assert_ne!(SigningKey::generate().to_bytes(), SigningKey::generate().to_bytes());
}

#[test]
fn stored_valid_key_is_loaded() {
    let bytes = vec![7u8; 32];
    match choose_signing_key(StoredKey::Contents(bytes.clone())) {
        KeyChoice::Loaded(k) => assert_eq!(k.to_bytes().to_vec(), bytes),
        KeyChoice::Generated { .. } => panic!("expected the stored key to be loaded"),
    }
}

#[test]
fn missing_key_is_generated_without_discarding() {
    assert!(matches!(
        choose_signing_key(StoredKey::Absent),
        KeyChoice::Generated { discard_stored: false, .. }
    ));
}

#[test]
fn corrupt_or_unreadable_key_is_replaced() {
    assert!(matches!(
        choose_signing_key(StoredKey::Contents(vec![1u8; 10])),
        KeyChoice::Generated { discard_stored: true, .. }
    ));
    assert!(matches!(
        choose_signing_key(StoredKey::Unreadable),
        KeyChoice::Generated { discard_stored: true, .. }
    ));
}

#[test]
fn resolve_uses_the_fresh_key_only_when_needed() {
    let fresh = decode_signing_key(&[5u8; 32]).unwrap();
    match resolve_signing_key(StoredKey::Contents(vec![3u8; 32]), fresh) {
        KeyChoice::Loaded(k) => assert_eq!(k.to_bytes(), [3u8; 32]),
        KeyChoice::Generated { .. } => panic!("expected the stored key to be loaded"),
    }
    match resolve_signing_key(StoredKey::Contents(vec![3u8; 5]), fresh) {
        KeyChoice::Generated { key, discard_stored } => {
            assert_eq!(key.to_bytes(), [5u8; 32]);
            assert!(discard_stored);
        }
        KeyChoice::Loaded(_) => panic!("expected a new key"),
    }
    match resolve_signing_key(StoredKey::Absent, fresh) {
        KeyChoice::Generated { key, discard_stored } => {
            assert_eq!(key.to_bytes(), [5u8; 32]);
            assert!(!discard_stored);
        }
        KeyChoice::Loaded(_) => panic!("expected a new key"),
    }
}
