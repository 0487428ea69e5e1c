use base64::Engine;
use openhome::crypto::{
    decrypt_api_key, encrypt_api_key, generate_master_key, str_to_bytes, zeroize_string,
    CryptoError, EncryptedPayload,
};

const NONCE_SIZE: usize = 12;

#[test]
fn test_generate_master_key() {
    let key1 = generate_master_key().unwrap();
    let key2 = generate_master_key().unwrap();

    assert_eq!(key1.len(), 32);
    assert_eq!(key2.len(), 32);
    assert_ne!(key1, key2, "Keys should be unique");
}

#[test]
fn test_encrypt_decrypt_roundtrip() {
    let master_key = generate_master_key().unwrap();
    let api_key = "test_api_key_12345";

    let payload = encrypt_api_key(api_key, &master_key).unwrap();
    let decrypted = decrypt_api_key(&payload, &master_key).unwrap();

    assert_eq!(decrypted, api_key);
}

#[test]
fn test_nonce_length() {
    let master_key = generate_master_key().unwrap();
    let payload = encrypt_api_key("test", &master_key).unwrap();

    let nonce = base64::engine::general_purpose::STANDARD
        .decode(&payload.nonce)
        .unwrap();

    assert_eq!(nonce.len(), NONCE_SIZE);
}

#[test]
fn test_invalid_payload_wrong_key() {
    let key1 = generate_master_key().unwrap();
    let key2 = generate_master_key().unwrap();

    let payload = encrypt_api_key("secret", &key1).unwrap();
    let result = decrypt_api_key(&payload, &key2);

    assert!(result.is_err());
}

#[test]
fn test_invalid_payload_bad_base64() {
    let master_key = generate_master_key().unwrap();
    let payload = EncryptedPayload {
        version: 1,
        nonce: "not-base64!!!".to_string(),
        ciphertext: "also-not-base64".to_string(),
    };

    let result = decrypt_api_key(&payload, &master_key);
    assert!(result.is_err());
}

#[test]
fn test_unsupported_version_rejected() {
    let master_key = generate_master_key().unwrap();
    let payload = encrypt_api_key("secret", &master_key).unwrap();
    let stale = EncryptedPayload { version: 2, ..payload };
    assert!(matches!(
        decrypt_api_key(&stale, &master_key),
        Err(CryptoError::InvalidVersion(2))
    ));
}

#[test]
fn test_wrong_nonce_length_rejected() {
    let master_key = generate_master_key().unwrap();
    let payload = encrypt_api_key("secret", &master_key).unwrap();
    let short_nonce = base64::engine::general_purpose::STANDARD.encode([7u8; 8]);
    let mangled = EncryptedPayload { nonce: short_nonce, ..payload };
    assert!(matches!(decrypt_api_key(&mangled, &master_key), Err(CryptoError::InvalidNonce)));
}

#[test]
fn test_tampered_ciphertext_always_fails() {
    let master_key = generate_master_key().unwrap();
    let secret = "tok-A";
    let payload = encrypt_api_key(secret, &master_key).unwrap();
    let engine = &base64::engine::general_purpose::STANDARD;
    let ciphertext = engine.decode(&payload.ciphertext).unwrap();

    for byte_idx in 0..ciphertext.len() {
        for bit in 0..8 {
            let mut flipped = ciphertext.clone();
            flipped[byte_idx] ^= 1 << bit;
            let tampered = EncryptedPayload {
                version: payload.version,
                nonce: payload.nonce.clone(),
                ciphertext: engine.encode(&flipped),
            };
            match decrypt_api_key(&tampered, &master_key) {
                Err(CryptoError::DecryptionFailed(_)) => {}
                Ok(other) => panic!("tampered ciphertext decrypted to {:?}", other),
                Err(e) => panic!("unexpected error {:?}", e),
            }
        }
    }
}

#[test]
fn test_tampered_nonce_always_fails() {
    let master_key = generate_master_key().unwrap();
    let payload = encrypt_api_key("tok-A", &master_key).unwrap();
    let engine = &base64::engine::general_purpose::STANDARD;
    let nonce = engine.decode(&payload.nonce).unwrap();

    for byte_idx in 0..nonce.len() {
        for bit in 0..8 {
            let mut flipped = nonce.clone();
            flipped[byte_idx] ^= 1 << bit;
            let tampered = EncryptedPayload {
                version: payload.version,
                nonce: engine.encode(&flipped),
                ciphertext: payload.ciphertext.clone(),
            };
            match decrypt_api_key(&tampered, &master_key) {
                Err(CryptoError::DecryptionFailed(_)) => {}
                Ok(other) => panic!("tampered nonce decrypted to {:?}", other),
                Err(e) => panic!("unexpected error {:?}", e),
            }
        }
    }
}

#[test]
fn test_roundtrip_survives_unicode_secrets() {
    let master_key = generate_master_key().unwrap();
    let secret = "clé-秘密-🔑";
    let payload = encrypt_api_key(secret, &master_key).unwrap();
    assert_eq!(decrypt_api_key(&payload, &master_key).unwrap(), secret);
}

#[test]
fn test_fresh_nonce_per_encryption() {
    let master_key = generate_master_key().unwrap();
    let p1 = encrypt_api_key("same secret", &master_key).unwrap();
    let p2 = encrypt_api_key("same secret", &master_key).unwrap();
    assert_ne!(p1.nonce, p2.nonce, "nonce must be fresh per encryption");
}

#[test]
fn test_zeroize_string_clears() {
    let mut secret = "super secret".to_string();
    zeroize_string(&mut secret);
    assert_eq!(secret, "");
}

#[test]
fn test_str_to_bytes_lays_out_passphrase() {
    let bytes: [u8; 8] = str_to_bytes("12345678");
    assert_eq!(&bytes, b"12345678");
}
