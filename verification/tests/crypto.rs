use shmtu_terminal::crypto::CryptoService;

#[test]
fn test_encrypt_decrypt() {
    let crypto = CryptoService::from_password("test_password");
    let plaintext = "Hello, 世界!";
    let encrypted = crypto.encrypt_string(plaintext).unwrap();
    let decrypted = crypto.decrypt_string(&encrypted).unwrap();
    assert_eq!(plaintext, decrypted);
}

#[test]
fn test_password_hash() {
    let hash = CryptoService::hash_password("mypassword");
    assert!(CryptoService::verify_password("mypassword", &hash));
    assert!(!CryptoService::verify_password("wrongpassword", &hash));
}

#[test]
fn test_different_keys_produce_different_ciphertext() {
    let crypto1 = CryptoService::from_password("key1");
    let crypto2 = CryptoService::from_password("key2");
    let encrypted1 = crypto1.encrypt_string("test").unwrap();
    let encrypted2 = crypto2.encrypt_string("test").unwrap();
    assert_ne!(encrypted1, encrypted2);
}

#[test]
fn password_hash_is_hex_sha256() {
    // SHA-256 of "abc"
    assert_eq!(
        CryptoService::hash_password("abc"),
        "ba7816bf8f01cfea414140de5dae2223b00361a396177a9cb410ff61f20015ad"
    );
}

#[test]
fn decrypt_with_other_key_fails() {
    let a = CryptoService::from_password("a");
    let b = CryptoService::from_password("b");
    let enc = a.encrypt(b"secret").unwrap();
    assert!(b.decrypt(&enc).is_err());
}

#[test]
fn decrypt_rejects_short_and_bad_input() {
    let c = CryptoService::from_device_id("device-1");
    let short = c.decrypt("AAAA");
    assert!(short.is_err());
    assert_eq!(short.unwrap_err().message(), "加密错误: 密文数据过短");
    assert!(c.decrypt("not base64 !!").is_err());
}

#[test]
fn encrypt_twice_gives_different_texts_that_both_decrypt() {
    let c = CryptoService::new(b"raw key bytes");
    let e1 = c.encrypt(b"same").unwrap();
    let e2 = c.encrypt(b"same").unwrap();
    assert_ne!(e1, e2);
    assert_eq!(c.decrypt(&e1).unwrap(), b"same".to_vec());
    assert_eq!(c.decrypt(&e2).unwrap(), b"same".to_vec());
}

#[test]
fn generated_keys_differ() {
    assert_ne!(CryptoService::generate_key(), CryptoService::generate_key());
}
