use dexios::decrypt::crypto::{decrypt_bytes, decrypt_bytes_memory_mode, decrypt_bytes_stream_mode};
use dexios::encrypt::crypto::{encrypt_bytes_memory_mode_with, encrypt_bytes_stream_mode_with};
use dexios::error::CryptoError;
use dexios::global::enums::{Algorithm, BenchMode, CipherMode, HashMode, HeaderVersion};
use dexios::global::structs::{Header, HeaderType};
use dexios::secret::Secret;

fn header(algorithm: Algorithm, mode: CipherMode, nonce_len: usize) -> Header {
    Header {
        header_type: HeaderType {
            header_version: HeaderVersion::V1,
            cipher_mode: mode,
            algorithm,
        },
        nonce: (0..nonce_len).map(|i| (i as u8).wrapping_mul(7).wrapping_add(1)).collect(),
        salt: [0x5a; 16],
    }
}

fn memory_round_trip(algorithm: Algorithm, nonce_len: usize, plaintext: &[u8]) {
    let out = encrypt_bytes_memory_mode_with(
        Secret::new(plaintext.to_vec()),
        Secret::new(b"correct horse battery staple".to_vec()),
        BenchMode::WriteToFilesystem,
        HashMode::NoHash,
        header(algorithm, CipherMode::MemoryMode, nonce_len),
    )
    .unwrap();
    let container = out.container.unwrap();
    assert_eq!(container.len(), 96 + plaintext.len() + 16);
    assert!(out.digest.is_none());
    let plain =
        decrypt_bytes(&container, Secret::new(b"correct horse battery staple".to_vec())).unwrap();
    assert_eq!(plain, plaintext);
}

#[test]
fn memory_round_trip_aes256gcm() {
    memory_round_trip(Algorithm::Aes256Gcm, 12, b"Hello, world!");
}

#[test]
fn memory_round_trip_xchacha20poly1305() {
    memory_round_trip(Algorithm::XChaCha20Poly1305, 24, b"Hello, world!");
}

#[test]
fn memory_round_trip_deoxys_ii_256() {
    memory_round_trip(Algorithm::DeoxysII256, 15, b"Hello, world!");
}

#[test]
fn memory_round_trip_empty_plaintext() {
    memory_round_trip(Algorithm::Aes256Gcm, 12, b"");
}

fn stream_round_trip(algorithm: Algorithm, base_nonce_len: usize, plaintext: &[u8]) -> Vec<u8> {
    let out = encrypt_bytes_stream_mode_with(
        plaintext,
        Secret::new(b"correct horse battery staple".to_vec()),
        BenchMode::WriteToFilesystem,
        HashMode::NoHash,
        header(algorithm, CipherMode::StreamMode, base_nonce_len),
    )
    .unwrap();
    let container = out.container.unwrap();
    let plain =
        decrypt_bytes(&container, Secret::new(b"correct horse battery staple".to_vec())).unwrap();
    assert_eq!(plain, plaintext);
    container
}

#[test]
fn stream_round_trip_short_aes256gcm() {
    let container = stream_round_trip(Algorithm::Aes256Gcm, 7, b"Hello, world!");
    assert_eq!(container.len(), 96 + 13 + 16);
}

#[test]
fn stream_round_trip_short_xchacha20poly1305() {
    let container = stream_round_trip(Algorithm::XChaCha20Poly1305, 19, b"Hello, world!");
    assert_eq!(container.len(), 96 + 13 + 16);
}

#[test]
fn stream_round_trip_short_deoxys_ii_256() {
    let container = stream_round_trip(Algorithm::DeoxysII256, 10, b"Hello, world!");
    assert_eq!(container.len(), 96 + 13 + 16);
}

#[test]
fn stream_round_trip_of_eight_blocks() {
    let plaintext: Vec<u8> = (0..8 * 1024 * 1024).map(|i| (i % 255) as u8).collect();
    let container = stream_round_trip(Algorithm::Aes256Gcm, 7, &plaintext);
    // eight full blocks and a last block without plaintext
    assert_eq!(container.len(), 96 + 8 * (1024 * 1024 + 16) + 16);
}

#[test]
fn memory_round_trip_of_eight_blocks() {
    let plaintext: Vec<u8> = (0..8 * 1024 * 1024).map(|i| (i % 254) as u8).collect();
    memory_round_trip(Algorithm::XChaCha20Poly1305, 24, &plaintext);
}

#[test]
fn stream_round_trip_one_byte_short_of_a_block() {
    let plaintext = vec![0xeeu8; 1024 * 1024 - 1];
    let container = stream_round_trip(Algorithm::DeoxysII256, 10, &plaintext);
    assert_eq!(container.len(), 96 + 1024 * 1024 - 1 + 16);
}

#[test]
fn stream_round_trip_one_byte_over_a_block() {
    let plaintext = vec![0xeeu8; 1024 * 1024 + 1];
    let container = stream_round_trip(Algorithm::XChaCha20Poly1305, 19, &plaintext);
    assert_eq!(container.len(), 96 + (1024 * 1024 + 16) + (1 + 16));
}

#[test]
fn stream_round_trip_empty_plaintext() {
    for (algorithm, n) in
        [(Algorithm::Aes256Gcm, 7), (Algorithm::XChaCha20Poly1305, 19), (Algorithm::DeoxysII256, 10)]
    {
        let container = stream_round_trip(algorithm, n, b"");
        assert_eq!(container.len(), 96 + 16);
    }
}

#[test]
fn mode_specific_decryption_refuses_the_other_mode() {
    let container = stream_round_trip(Algorithm::Aes256Gcm, 7, b"abc");
    assert_eq!(
        decrypt_bytes_memory_mode(&container, Secret::new(b"correct horse battery staple".to_vec())),
        Err(CryptoError::UsageFailure)
    );
    assert_eq!(
        decrypt_bytes_stream_mode(&container, Secret::new(b"correct horse battery staple".to_vec())),
        Ok(b"abc".to_vec())
    );
}
