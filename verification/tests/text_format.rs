use aes_gcm::aead::generic_array::GenericArray;
use aes_gcm::aead::{Aead, NewAead};
use dexios::encrypt::{encrypt_file, encrypt_file_with};
use dexios::error::CryptoError;
use dexios::secret::Secret;
use std::num::NonZeroU32;

#[test]
fn the_three_fields_are_base64_of_salt_nonce_and_ciphertext() {
    let salt: Vec<u8> = (0..256).map(|i| i as u8).collect();
    let nonce = [0x0bu8; 12];
    let file =
        encrypt_file_with(b"Hello, world!", &Secret::new(b"password".to_vec()), &salt, &nonce)
            .unwrap();
    assert_eq!(file.salt, base64::encode(&salt));
    assert_eq!(file.nonce, "CwsLCwsLCwsLCwsL");
    let mut key = [0u8; 32];
    ring::pbkdf2::derive(
        ring::pbkdf2::PBKDF2_HMAC_SHA512,
        NonZeroU32::new(122880).unwrap(),
        &salt,
        b"password",
        &mut key,
    );
    let ciphertext = base64::decode(&file.data).unwrap();
    assert_eq!(ciphertext.len(), 13 + 16);
    let plain = aes_gcm::Aes256Gcm::new(GenericArray::from_slice(&key))
        .decrypt(GenericArray::from_slice(&nonce), ciphertext.as_slice())
        .unwrap();
    assert_eq!(plain, b"Hello, world!");
}

#[test]
fn salt_and_nonce_must_have_their_lengths() {
    let key = Secret::new(b"password".to_vec());
    let refused = |salt: &[u8], nonce: &[u8]| encrypt_file_with(b"x", &key, salt, nonce).err();
    assert_eq!(refused(&[0u8; 255], &[0u8; 12]), Some(CryptoError::UsageFailure));
    assert_eq!(refused(&[0u8; 257], &[0u8; 12]), Some(CryptoError::UsageFailure));
    assert_eq!(refused(&[0u8; 256], &[0u8; 11]), Some(CryptoError::UsageFailure));
    assert_eq!(refused(&[0u8; 256], &[0u8; 24]), Some(CryptoError::UsageFailure));
    assert_eq!(refused(&[0u8; 256], &[0u8; 12]), None);
}

#[test]
fn an_empty_raw_key_is_refused_by_the_text_format() {
    let empty = Secret::new(Vec::new());
    assert_eq!(
        encrypt_file_with(b"x", &empty, &[0u8; 256], &[0u8; 12]).err(),
        Some(CryptoError::UsageFailure)
    );
    assert_eq!(encrypt_file(b"x", &empty).err(), Some(CryptoError::UsageFailure));
    assert_eq!(encrypt_file(b"", &empty).err(), Some(CryptoError::UsageFailure));
}

#[test]
fn fresh_salt_and_nonce_every_time() {
    let key = Secret::new(b"password".to_vec());
    let first = encrypt_file(b"same text", &key).unwrap();
    let second = encrypt_file(b"same text", &key).unwrap();
    assert_eq!(base64::decode(&first.salt).unwrap().len(), 256);
    assert_eq!(base64::decode(&first.nonce).unwrap().len(), 12);
    assert_eq!(base64::decode(&first.data).unwrap().len(), 9 + 16);
    assert_ne!(first.salt, second.salt);
    assert_ne!(first.nonce, second.nonce);
    assert_ne!(first.data, second.data);
}
