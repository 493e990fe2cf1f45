use dexios::decrypt::crypto::{decrypt_bytes, decrypt_bytes_memory_mode, decrypt_bytes_stream_mode};
use dexios::encrypt::crypto::{encrypt_bytes_memory_mode_with, encrypt_bytes_stream_mode_with};
use dexios::error::CryptoError;
use dexios::global::enums::{Algorithm, BenchMode, CipherMode, HashMode, HeaderVersion};
use dexios::global::structs::{Header, HeaderType};
use dexios::secret::Secret;

const MIB: usize = 1024 * 1024;
const RAW_KEY: &[u8] = b"a long enough passphrase";

fn raw_key() -> Secret {
    Secret::new(RAW_KEY.to_vec())
}

fn memory_container(plaintext: &[u8]) -> Vec<u8> {
    encrypt_bytes_memory_mode_with(
        Secret::new(plaintext.to_vec()),
        raw_key(),
        BenchMode::WriteToFilesystem,
        HashMode::NoHash,
        Header {
            header_type: HeaderType {
                header_version: HeaderVersion::V1,
                cipher_mode: CipherMode::MemoryMode,
                algorithm: Algorithm::XChaCha20Poly1305,
            },
            nonce: vec![0x61; 24],
            salt: [0x62; 16],
        },
    )
    .unwrap()
    .container
    .unwrap()
}

fn stream_container(plaintext: &[u8]) -> Vec<u8> {
    encrypt_bytes_stream_mode_with(
        plaintext,
        raw_key(),
        BenchMode::WriteToFilesystem,
        HashMode::NoHash,
        Header {
            header_type: HeaderType {
                header_version: HeaderVersion::V1,
                cipher_mode: CipherMode::StreamMode,
                algorithm: Algorithm::Aes256Gcm,
            },
            nonce: vec![0x63; 7],
            salt: [0x64; 16],
        },
    )
    .unwrap()
    .container
    .unwrap()
}

#[test]
fn a_key_that_differs_in_one_bit_fails_authentication() {
    let container = memory_container(b"top secret");
    let mut other = RAW_KEY.to_vec();
    other[5] ^= 0x04;
    assert_eq!(
        decrypt_bytes(&container, Secret::new(other)),
        Err(CryptoError::AuthenticationFailure)
    );
}

#[test]
fn a_changed_signature_fails_authentication() {
    let container = memory_container(b"top secret");
    for (position, bit) in [(64, 0), (95, 7)] {
        let mut changed = container.clone();
        changed[position] ^= 1 << bit;
        assert_eq!(decrypt_bytes(&changed, raw_key()), Err(CryptoError::AuthenticationFailure));
    }
}

#[test]
fn a_changed_salt_fails_authentication() {
    let container = memory_container(b"top secret");
    for position in [8, 23] {
        let mut changed = container.clone();
        changed[position] ^= 0x10;
        assert_eq!(decrypt_bytes(&changed, raw_key()), Err(CryptoError::AuthenticationFailure));
    }
}

#[test]
fn a_changed_nonce_fails_authentication() {
    let container = memory_container(b"top secret");
    for position in [24, 47] {
        let mut changed = container.clone();
        changed[position] ^= 0x10;
        assert_eq!(decrypt_bytes(&changed, raw_key()), Err(CryptoError::AuthenticationFailure));
    }
}

#[test]
fn a_changed_tag_field_of_the_header_is_refused() {
    let container = memory_container(b"top secret");
    // the version number becomes that of another known version: the key
    // derived for it does not sign this header
    let mut changed = container.clone();
    changed[1] = 2;
    assert_eq!(decrypt_bytes(&changed, raw_key()), Err(CryptoError::AuthenticationFailure));
    // the version number becomes unknown
    let mut changed = container.clone();
    changed[1] ^= 0x80;
    assert_eq!(decrypt_bytes(&changed, raw_key()), Err(CryptoError::HeaderFailure));
    // a reserved byte is set
    let mut changed = container.clone();
    changed[60] ^= 0x01;
    assert_eq!(decrypt_bytes(&changed, raw_key()), Err(CryptoError::HeaderFailure));
}

#[test]
fn changed_ciphertext_fails_authentication_in_memory_mode() {
    let container = memory_container(b"top secret");
    for position in [96, container.len() - 1] {
        let mut changed = container.clone();
        changed[position] ^= 0x01;
        assert_eq!(decrypt_bytes(&changed, raw_key()), Err(CryptoError::AuthenticationFailure));
    }
}

#[test]
fn changed_ciphertext_fails_authentication_in_the_first_block() {
    let container = stream_container(&vec![9u8; MIB + 10]);
    for position in [96, 96 + MIB + 15] {
        let mut changed = container.clone();
        changed[position] ^= 0x01;
        assert_eq!(decrypt_bytes(&changed, raw_key()), Err(CryptoError::AuthenticationFailure));
    }
}

#[test]
fn changed_ciphertext_fails_authentication_in_the_last_block() {
    let container = stream_container(&vec![9u8; MIB + 10]);
    for position in [96 + MIB + 16, container.len() - 1] {
        let mut changed = container.clone();
        changed[position] ^= 0x01;
        assert_eq!(decrypt_bytes(&changed, raw_key()), Err(CryptoError::AuthenticationFailure));
    }
}

#[test]
fn removing_the_last_block_fails_authentication() {
    let plaintext = vec![1u8; 2 * MIB + 77];
    let mut container = stream_container(&plaintext);
    container.truncate(container.len() - (77 + 16));
    assert_eq!(container.len(), 96 + 2 * (MIB + 16));
    assert_eq!(decrypt_bytes(&container, raw_key()), Err(CryptoError::AuthenticationFailure));
}

#[test]
fn removing_the_only_block_fails_authentication() {
    let mut container = stream_container(b"short");
    container.truncate(96);
    assert_eq!(decrypt_bytes(&container, raw_key()), Err(CryptoError::AuthenticationFailure));
}

#[test]
fn swapping_two_blocks_fails_authentication() {
    let plaintext: Vec<u8> = (0..2 * MIB + 5).map(|i| (i / MIB) as u8).collect();
    let container = stream_container(&plaintext);
    let mut swapped = container[..96].to_vec();
    swapped.extend_from_slice(&container[96 + MIB + 16..96 + 2 * (MIB + 16)]);
    swapped.extend_from_slice(&container[96..96 + MIB + 16]);
    swapped.extend_from_slice(&container[96 + 2 * (MIB + 16)..]);
    assert_eq!(swapped.len(), container.len());
    assert_eq!(decrypt_bytes(&swapped, raw_key()), Err(CryptoError::AuthenticationFailure));
}

#[test]
fn appending_to_a_stream_fails_authentication() {
    let mut container = stream_container(b"short");
    container.extend_from_slice(&[0u8; 16]);
    assert_eq!(decrypt_bytes(&container, raw_key()), Err(CryptoError::AuthenticationFailure));
}

#[test]
fn a_container_shorter_than_header_and_signature_is_refused() {
    assert_eq!(decrypt_bytes(&[], raw_key()), Err(CryptoError::HeaderFailure));
    assert_eq!(decrypt_bytes(&[0xDE; 95], raw_key()), Err(CryptoError::HeaderFailure));
    assert_eq!(decrypt_bytes_memory_mode(&[0xDE; 95], raw_key()), Err(CryptoError::HeaderFailure));
    assert_eq!(decrypt_bytes_stream_mode(&[0xDE; 95], raw_key()), Err(CryptoError::HeaderFailure));
    assert_eq!(decrypt_bytes(&[0u8; 200], raw_key()), Err(CryptoError::HeaderFailure));
}

#[test]
fn an_empty_raw_key_is_a_usage_failure() {
    let empty = || Secret::new(Vec::new());
    assert_eq!(decrypt_bytes(&[0u8; 200], empty()), Err(CryptoError::UsageFailure));
    assert_eq!(decrypt_bytes(&[], empty()), Err(CryptoError::UsageFailure));
    assert!(matches!(
        encrypt_bytes_memory_mode_with(
            Secret::new(b"x".to_vec()),
            empty(),
            BenchMode::WriteToFilesystem,
            HashMode::NoHash,
            Header {
                header_type: HeaderType {
                    header_version: HeaderVersion::V1,
                    cipher_mode: CipherMode::MemoryMode,
                    algorithm: Algorithm::Aes256Gcm,
                },
                nonce: vec![0; 12],
                salt: [0; 16],
            },
        ),
        Err(CryptoError::UsageFailure)
    ));
    assert!(matches!(
        encrypt_bytes_stream_mode_with(
            b"x",
            empty(),
            BenchMode::WriteToFilesystem,
            HashMode::NoHash,
            Header {
                header_type: HeaderType {
                    header_version: HeaderVersion::V1,
                    cipher_mode: CipherMode::StreamMode,
                    algorithm: Algorithm::Aes256Gcm,
                },
                nonce: vec![0; 7],
                salt: [0; 16],
            },
        ),
        Err(CryptoError::UsageFailure)
    ));
}

#[test]
fn a_header_of_the_other_mode_or_a_wrong_nonce_is_refused_before_any_work() {
    let header = |mode, nonce_len: usize| Header {
        header_type: HeaderType {
            header_version: HeaderVersion::V1,
            cipher_mode: mode,
            algorithm: Algorithm::Aes256Gcm,
        },
        nonce: vec![0; nonce_len],
        salt: [0; 16],
    };
    let memory = |h: Header| {
        encrypt_bytes_memory_mode_with(
            Secret::new(b"x".to_vec()),
            raw_key(),
            BenchMode::WriteToFilesystem,
            HashMode::NoHash,
            h,
        )
        .map(|_| ())
    };
    let stream = |h: Header| {
        encrypt_bytes_stream_mode_with(
            b"x",
            raw_key(),
            BenchMode::WriteToFilesystem,
            HashMode::NoHash,
            h,
        )
        .map(|_| ())
    };
    assert_eq!(memory(header(CipherMode::StreamMode, 7)), Err(CryptoError::UsageFailure));
    assert_eq!(stream(header(CipherMode::MemoryMode, 12)), Err(CryptoError::UsageFailure));
    assert_eq!(memory(header(CipherMode::MemoryMode, 7)), Err(CryptoError::HeaderFailure));
    assert_eq!(stream(header(CipherMode::StreamMode, 12)), Err(CryptoError::HeaderFailure));
}
