use agent_dispatch::crypto::{Cipher, CryptoError, HexError};

fn zero_key() -> String {
    "0".repeat(64)
}

#[test]
fn test_encrypt_decrypt_roundtrip() {
    let key = zero_key();
    let cipher = Cipher::new(Some(key.as_str())).unwrap();
    let plaintext = "my-secret-api-key-12345";

    let encrypted = cipher.encrypt(plaintext).unwrap();
    let decrypted = cipher.decrypt(&encrypted).unwrap();

    assert_eq!(decrypted, plaintext);
}

#[test]
fn encrypted_text_is_hex_of_nonce_and_ciphertext() {
    let key = zero_key();
    let cipher = Cipher::new(Some(key.as_str())).unwrap();
    let encrypted = cipher.encrypt("abc").unwrap();
    // 12 bytes of nonce, 3 of ciphertext, 16 of tag, two hex digits each.
    assert_eq!(encrypted.len(), 2 * (12 + 3 + 16));
    assert!(encrypted.chars().all(|c| c.is_ascii_digit() || ('a'..='f').contains(&c)));
    let other = cipher.encrypt("abc").unwrap();
    assert_ne!(encrypted, other);
    assert_eq!(cipher.decrypt(&other).unwrap(), "abc");
}

#[test]
fn key_errors() {
    assert_eq!(Cipher::new(None).err(), Some(CryptoError::KeyNotSet));
    assert_eq!(Cipher::new(Some("00")).err(), Some(CryptoError::KeyLength));
    assert_eq!(Cipher::new(Some("abc")).err(), Some(CryptoError::KeyDecode(HexError::OddLength)));
    assert_eq!(
        Cipher::new(Some("zz")).err(),
        Some(CryptoError::KeyDecode(HexError::InvalidHexCharacter { c: 'z', index: 0 }))
    );
}

#[test]
fn decrypt_errors() {
    let key = zero_key();
    let cipher = Cipher::new(Some(key.as_str())).unwrap();
    assert_eq!(cipher.decrypt("0011").err(), Some(CryptoError::TooShort));
    assert_eq!(cipher.decrypt("123").err(), Some(CryptoError::Decode(HexError::OddLength)));
    let mut encrypted = cipher.encrypt("secret").unwrap();
    let last = encrypted.pop().unwrap();
    encrypted.push(if last == '0' { '1' } else { '0' });
    assert_eq!(cipher.decrypt(&encrypted).err(), Some(CryptoError::Decryption));
    let other = Cipher::new(Some("1".repeat(64).as_str())).unwrap();
    let sealed = cipher.encrypt("secret").unwrap();
    assert_eq!(other.decrypt(&sealed).err(), Some(CryptoError::Decryption));
}

#[test]
fn crypto_error_texts() {
    assert_eq!(CryptoError::KeyNotSet.to_string(), "ENCRYPTION_KEY not set in environment");
    assert_eq!(
        CryptoError::KeyLength.to_string(),
        "ENCRYPTION_KEY must be 32 bytes (64 hex chars)"
    );
    assert_eq!(
        CryptoError::KeyDecode(HexError::OddLength).to_string(),
        "Failed to decode ENCRYPTION_KEY: Odd number of digits"
    );
    assert_eq!(
        CryptoError::Decode(HexError::InvalidHexCharacter { c: 'g', index: 7 }).to_string(),
        "Failed to decode encrypted data: Invalid character 'g' at position 7"
    );
    assert_eq!(CryptoError::TooShort.to_string(), "Invalid encrypted data: too short");
    assert_eq!(CryptoError::Decryption.to_string(), "Decryption failed: aead::Error");
    assert_eq!(CryptoError::Encryption.to_string(), "Encryption failed: aead::Error");
    assert_eq!(
        HexError::InvalidStringLength.to_string(),
        "Invalid string length"
    );
}

#[test]
fn undecodable_plaintext_reports_where_it_goes_wrong() {
    let bad = String::from_utf8(vec![b'a', 0x9f, b'b']).unwrap_err();
    assert_eq!(
        CryptoError::Utf8 { valid_up_to: 1, error_len: Some(1) }.to_string(),
        format!("Failed to convert decrypted data to UTF-8: {}", bad)
    );
    let cut = String::from_utf8(vec![b'x', b'y', 0xe2, 0x82]).unwrap_err();
    assert_eq!(
        CryptoError::Utf8 { valid_up_to: 2, error_len: None }.to_string(),
        format!("Failed to convert decrypted data to UTF-8: {}", cut)
    );
    assert_eq!(
        CryptoError::Utf8 { valid_up_to: 2, error_len: None }.to_string(),
        "Failed to convert decrypted data to UTF-8: incomplete utf-8 byte sequence from index 2"
    );
}
