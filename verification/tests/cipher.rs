use file_encryptor::cipher::CipherError;
use file_encryptor::cipher::FileEncryptor;

#[test]
fn test_encryptor_creation() {
    let encryptor = FileEncryptor::new("test123", "encrypt").unwrap();
    assert_eq!(encryptor.mode_name(), "encrypt");
    assert_eq!(encryptor.key, b"test123");
}

#[test]
fn test_xor_cipher() {
    let encryptor = FileEncryptor::new("key", "encrypt").unwrap();
    let mut data = vec![1, 2, 3, 4];
    let original = data.clone();

    // Encrypt
    encryptor.xor_cipher(&mut data);
    assert_ne!(data, original);

    // Decrypt (XOR twice with same key)
    encryptor.xor_cipher(&mut data);
    assert_eq!(data, original);
}

#[test]
fn key_cycles_over_input() {
    // key = "AB" (bytes 0x41, 0x42) over [0x00, 0x00, 0x00]
    let encryptor = FileEncryptor::new("AB", "encrypt").unwrap();
    let mut data: Vec<u8> = vec![0x00, 0x00, 0x00];
    encryptor.xor_cipher(&mut data);
    assert_eq!(data, vec![0x41, 0x42, 0x41]);
}

#[test]
fn transform_preserves_length() {
    let encryptor = FileEncryptor::new("secret", "encrypt").unwrap();
    let mut empty: Vec<u8> = Vec::new();
    encryptor.xor_cipher(&mut empty);
    assert_eq!(empty.len(), 0);

    let mut data: Vec<u8> = vec![9; 1000];
    encryptor.xor_cipher(&mut data);
    assert_eq!(data.len(), 1000);
}

#[test]
fn round_trip_across_modes() {
    // Encrypting with one engine and decrypting with another restores the
    // bytes, since both engines hold the same key.
    let enc = FileEncryptor::new("pa55word", "encrypt").unwrap();
    let dec = FileEncryptor::new("pa55word", "decrypt").unwrap();
    let original: Vec<u8> = (0u16..=255).map(|b| b as u8).collect();
    let mut data = original.clone();
    enc.xor_cipher(&mut data);
    dec.xor_cipher(&mut data);
    assert_eq!(data, original);
}

#[test]
fn empty_key_is_rejected() {
    assert_eq!(
        FileEncryptor::new("", "encrypt").unwrap_err(),
        CipherError::ConfigurationError
    );
    assert_eq!(
        FileEncryptor::new("", "decrypt").unwrap_err(),
        CipherError::ConfigurationError
    );
}

#[test]
fn invalid_mode_is_rejected() {
    assert_eq!(
        FileEncryptor::new("key", "encode").unwrap_err(),
        CipherError::ConfigurationError
    );
    assert_eq!(
        FileEncryptor::new("key", "").unwrap_err(),
        CipherError::ConfigurationError
    );
    assert_eq!(
        FileEncryptor::new("key", "Encrypt").unwrap_err(),
        CipherError::ConfigurationError
    );
}

#[test]
fn buffer_size_follows_mode() {
    let enc = FileEncryptor::new("key", "encrypt").unwrap();
    assert_eq!(enc.buffer_size, 4096);
    let dec = FileEncryptor::new("key", "decrypt").unwrap();
    assert_eq!(dec.buffer_size, 2048);
    assert_eq!(dec.mode_name(), "decrypt");
}
