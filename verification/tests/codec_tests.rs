use frostbyte::cipher;
use frostbyte::kdf::derive_key;
use frostbyte::record::{decode_record, encode_frame, encode_record, Keystore};

fn sample_record() -> Keystore {
    Keystore {
        public_key: (0u8..32).collect(),
        seed: (100u8..132).collect(),
        signature: (0u8..64).collect(),
        message: b"Frostbyte is awesome!".to_vec(),
    }
}

#[test]
fn record_layout_round_trips() {
    let record = sample_record();
    let bytes = encode_record(&record);
    assert_eq!(bytes.len(), 133 + 21);
    assert_eq!(bytes[0], 1);
    let back = decode_record(&bytes).expect("well-formed record decodes");
    assert_eq!(back.public_key, record.public_key);
    assert_eq!(back.seed, record.seed);
    assert_eq!(back.signature, record.signature);
    assert_eq!(back.message, record.message);
}

#[test]
fn record_decode_rejects_wrong_version() {
    let mut bytes = encode_record(&sample_record());
    bytes[0] = 2;
    assert!(decode_record(&bytes).is_none());
}

#[test]
fn record_decode_rejects_truncation() {
    let bytes = encode_record(&sample_record());
    assert!(decode_record(&bytes[..bytes.len() - 1]).is_none());
    assert!(decode_record(&bytes[..50]).is_none());
    assert!(decode_record(&[]).is_none());
}

#[test]
fn frame_layout_is_salt_nonce_tag_ciphertext() {
    let salt = [1u8; 16];
    let nonce = [2u8; 12];
    let tag = [3u8; 16];
    let ciphertext = [4u8; 5];
    let framed = encode_frame(&salt, &nonce, &tag, &ciphertext);
    assert_eq!(framed.len(), 44 + 5);
    assert_eq!(&framed[0..16], &salt);
    assert_eq!(&framed[16..28], &nonce);
    assert_eq!(&framed[28..44], &tag);
    assert_eq!(&framed[44..], &ciphertext);
}

#[test]
fn derive_key_is_deterministic() {
    let k1 = derive_key(b"password", b"0123456789abcdef");
    let k2 = derive_key(b"password", b"0123456789abcdef");
    assert_eq!(k1, k2);
    assert_eq!(k1.len(), 32);
}

#[test]
fn derive_key_depends_on_password_and_salt() {
    let k1 = derive_key(b"password", b"0123456789abcdef");
    let k2 = derive_key(b"passwore", b"0123456789abcdef");
    let k3 = derive_key(b"password", b"0123456789abcdeg");
    assert_ne!(k1, k2);
    assert_ne!(k1, k3);
}

#[test]
fn cipher_round_trips() {
    let key = [7u8; 32];
    let nonce = [9u8; 12];
    let plaintext = b"an account record".to_vec();
    let (ciphertext, tag) = cipher::encrypt(&plaintext, &key, &nonce);
    assert_eq!(ciphertext.len(), plaintext.len());
    assert_eq!(tag.len(), 16);
    let back = cipher::decrypt(&ciphertext, &tag, &key, &nonce).expect("same key decrypts");
    assert_eq!(back, plaintext);
}

#[test]
fn cipher_rejects_wrong_key() {
    let key = [7u8; 32];
    let wrong_key = [8u8; 32];
    let nonce = [9u8; 12];
    let (ciphertext, tag) = cipher::encrypt(b"an account record", &key, &nonce);
    let r = cipher::decrypt(&ciphertext, &tag, &wrong_key, &nonce);
    assert!(matches!(r, Err(cipher::DecryptError::AuthenticationFailed)));
}

#[test]
fn cipher_rejects_tampering() {
    let key = [7u8; 32];
    let nonce = [9u8; 12];
    let (mut ciphertext, tag) = cipher::encrypt(b"an account record", &key, &nonce);
    ciphertext[0] ^= 1;
    let r = cipher::decrypt(&ciphertext, &tag, &key, &nonce);
    assert!(matches!(r, Err(cipher::DecryptError::AuthenticationFailed)));
}

#[test]
fn sealed_record_round_trips() {
    let record = sample_record();
    let salt = [5u8; 16];
    let nonce = [6u8; 12];
    let blob = frostbyte::keystore::encrypt_record(&record, b"account password", &salt, &nonce);
    assert_eq!(&blob[0..16], &salt);
    let back = frostbyte::keystore::decrypt_record(&blob, b"account password")
        .expect("same password opens");
    assert_eq!(back.public_key, record.public_key);
    assert_eq!(back.seed, record.seed);
    assert_eq!(back.signature, record.signature);
    assert_eq!(back.message, record.message);
}

#[test]
fn derived_key_is_not_the_password() {
    let password = [0x61u8; 32];
    let salt = [0x62u8; 16];
    let key = derive_key(&password, &salt);
    assert_eq!(key.len(), 32);
    assert_ne!(key, password.to_vec());
    assert_ne!(&key[..16], &salt);
}

#[test]
fn corrupt_content_is_detected_after_successful_decryption() {
    let salt = [1u8; 16];
    let nonce = [2u8; 12];
    let key = derive_key(b"pw", &salt);
    let (ciphertext, tag) = cipher::encrypt(b"not a serialized record", &key, &nonce);
    let blob = encode_frame(&salt, &nonce, &tag, &ciphertext);
    let r = frostbyte::keystore::decrypt_record(&blob, b"pw");
    assert!(matches!(r, Err(frostbyte::keystore::ActivationError::CorruptRecord)));
}

#[test]
fn sealed_record_rejects_wrong_password() {
    let record = sample_record();
    let blob = frostbyte::keystore::encrypt_record(&record, b"right", &[5u8; 16], &[6u8; 12]);
    let r = frostbyte::keystore::decrypt_record(&blob, b"wrong");
    assert!(matches!(r, Err(frostbyte::keystore::ActivationError::WrongPassword)));
}
