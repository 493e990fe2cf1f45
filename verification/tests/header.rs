use dexios::error::CryptoError;
use dexios::global::enums::{Algorithm, CipherMode, HeaderVersion};
use dexios::global::structs::{Header, HeaderType};
use dexios::header::{
    algorithm_from_ordinal, algorithm_ordinal, check_signature, hash, mode_from_ordinal,
    mode_ordinal, sign, verify, version_from_number, version_number, HEADER_LEN, SIGNATURE_LEN,
};
use dexios::key::stored_nonce_len;
use dexios::observer::Observer;
use dexios::secret::Secret;

fn header(version: HeaderVersion, mode: CipherMode, algorithm: Algorithm) -> Header {
    let n = stored_nonce_len(algorithm, mode);
    Header {
        header_type: HeaderType { header_version: version, cipher_mode: mode, algorithm },
        nonce: (0..n).map(|i| 0x80 + i as u8).collect(),
        salt: [
            0x10, 0x11, 0x12, 0x13, 0x14, 0x15, 0x16, 0x17, 0x18, 0x19, 0x1a, 0x1b, 0x1c, 0x1d,
            0x1e, 0x1f,
        ],
    }
}

#[test]
fn serialized_layout_is_byte_exact() {
    let bytes = header(HeaderVersion::V3, CipherMode::MemoryMode, Algorithm::Aes256Gcm)
        .serialize()
        .unwrap();
    let mut expected = vec![0xDE, 3, 1, 0, 1, 0, 0, 0];
    expected.extend_from_slice(&[
        0x10, 0x11, 0x12, 0x13, 0x14, 0x15, 0x16, 0x17, 0x18, 0x19, 0x1a, 0x1b, 0x1c, 0x1d, 0x1e,
        0x1f,
    ]);
    expected.extend_from_slice(&[
        0x80, 0x81, 0x82, 0x83, 0x84, 0x85, 0x86, 0x87, 0x88, 0x89, 0x8a, 0x8b,
    ]);
    expected.extend_from_slice(&[0u8; 12]);
    expected.extend_from_slice(&[0u8; 16]);
    assert_eq!(expected.len(), 64);
    assert_eq!(bytes, expected);
}

#[test]
fn serialized_layout_of_a_stream_header() {
    let bytes = header(HeaderVersion::V1, CipherMode::StreamMode, Algorithm::XChaCha20Poly1305)
        .serialize()
        .unwrap();
    assert_eq!(bytes.len(), HEADER_LEN);
    assert_eq!(&bytes[..8], &[0xDE, 1, 2, 0, 2, 0, 0, 0]);
    // 19 bytes of base nonce, then zeros to the end
    assert_eq!(bytes[24 + 18], 0x80 + 18);
    assert!(bytes[24 + 19..].iter().all(|b| *b == 0));
}

#[test]
fn ordinals_and_numbers() {
    assert_eq!(algorithm_ordinal(Algorithm::Aes256Gcm), 1);
    assert_eq!(algorithm_ordinal(Algorithm::XChaCha20Poly1305), 2);
    assert_eq!(algorithm_ordinal(Algorithm::DeoxysII256), 3);
    assert_eq!(mode_ordinal(CipherMode::MemoryMode), 1);
    assert_eq!(mode_ordinal(CipherMode::StreamMode), 2);
    assert_eq!(version_number(HeaderVersion::V1), 1);
    assert_eq!(version_number(HeaderVersion::V2), 2);
    assert_eq!(version_number(HeaderVersion::V3), 3);
    assert_eq!(algorithm_from_ordinal(0), None);
    assert_eq!(algorithm_from_ordinal(2), Some(Algorithm::XChaCha20Poly1305));
    assert_eq!(algorithm_from_ordinal(4), None);
    assert_eq!(mode_from_ordinal(0), None);
    assert_eq!(mode_from_ordinal(2), Some(CipherMode::StreamMode));
    assert_eq!(mode_from_ordinal(3), None);
    assert_eq!(version_from_number(0), None);
    assert_eq!(version_from_number(3), Some(HeaderVersion::V3));
    assert_eq!(version_from_number(4), None);
}

#[test]
fn parsing_undoes_serializing_for_every_version_mode_and_algorithm() {
    for version in [HeaderVersion::V1, HeaderVersion::V2, HeaderVersion::V3] {
        for mode in [CipherMode::MemoryMode, CipherMode::StreamMode] {
            for algorithm in
                [Algorithm::Aes256Gcm, Algorithm::XChaCha20Poly1305, Algorithm::DeoxysII256]
            {
                let h = header(version, mode, algorithm);
                let bytes = h.serialize().unwrap();
                assert_eq!(bytes.len(), 64);
                let parsed = Header::deserialize(&bytes).unwrap();
                assert_eq!(parsed.header_type, h.header_type);
                assert_eq!(parsed.salt, h.salt);
                assert_eq!(parsed.nonce, h.nonce);
                assert_eq!(parsed.serialize().unwrap(), bytes);
            }
        }
    }
}

#[test]
fn serialize_refuses_a_nonce_of_the_wrong_length() {
    let mut h = header(HeaderVersion::V3, CipherMode::MemoryMode, Algorithm::Aes256Gcm);
    h.nonce.push(0);
    assert_eq!(h.serialize(), Err(CryptoError::HeaderFailure));
    let mut h = header(HeaderVersion::V3, CipherMode::StreamMode, Algorithm::Aes256Gcm);
    h.nonce = vec![0; 12];
    assert_eq!(h.serialize(), Err(CryptoError::HeaderFailure));
}

fn refused(bytes: &[u8]) -> bool {
    matches!(Header::deserialize(bytes), Err(CryptoError::HeaderFailure))
}

#[test]
fn deserialize_refuses_what_the_layout_does_not_allow() {
    let good = header(HeaderVersion::V2, CipherMode::MemoryMode, Algorithm::DeoxysII256)
        .serialize()
        .unwrap();
    assert!(Header::deserialize(&good).is_ok());
    assert!(refused(&good[..63]));
    assert!(refused(&[]));
    let mut long = good.clone();
    long.push(0);
    assert!(refused(&long));
    let change = |position: usize, value: u8| {
        let mut bytes = good.clone();
        bytes[position] = value;
        bytes
    };
    assert!(refused(&change(0, 0xDF))); // magic
    assert!(refused(&change(1, 0))); // version
    assert!(refused(&change(1, 4)));
    assert!(refused(&change(2, 0))); // algorithm ordinal
    assert!(refused(&change(2, 4)));
    assert!(refused(&change(3, 1))); // its high byte
    assert!(refused(&change(4, 0))); // mode ordinal
    assert!(refused(&change(4, 3)));
    assert!(refused(&change(5, 1)));
    assert!(refused(&change(6, 1))); // reserved
    assert!(refused(&change(7, 1)));
    assert!(refused(&change(24 + 15, 1))); // padding after a 15-byte nonce
    assert!(refused(&change(47, 1)));
    assert!(refused(&change(48, 1))); // reserved tail
    assert!(refused(&change(63, 0x80)));
    // salt and nonce may hold anything
    assert!(Header::deserialize(&change(8, 0xff)).is_ok());
    assert!(Header::deserialize(&change(24 + 14, 0)).is_ok());
}

#[test]
fn signature_is_keyed_blake3_of_the_header_bytes() {
    let bytes = header(HeaderVersion::V3, CipherMode::StreamMode, Algorithm::Aes256Gcm)
        .serialize()
        .unwrap();
    let key = [0x77u8; 32];
    let signature = sign(&bytes, &Secret::new(key.to_vec())).unwrap();
    assert_eq!(signature.len(), SIGNATURE_LEN);
    assert_eq!(signature, blake3::keyed_hash(&key, &bytes).as_bytes().to_vec());
    assert_ne!(signature, bytes[..32].to_vec());
}

#[test]
fn verify_accepts_the_signature_and_nothing_else() {
    let bytes = header(HeaderVersion::V3, CipherMode::StreamMode, Algorithm::Aes256Gcm)
        .serialize()
        .unwrap();
    let key = Secret::new(vec![0x77u8; 32]);
    let signature = sign(&bytes, &key).unwrap();
    assert_eq!(verify(&bytes, &signature, &key), Ok(()));
    for position in 0..32 {
        for bit in 0..8 {
            let mut changed = signature.clone();
            changed[position] ^= 1 << bit;
            assert_eq!(verify(&bytes, &changed, &key), Err(CryptoError::AuthenticationFailure));
        }
    }
    assert_eq!(verify(&bytes, &signature[..31], &key), Err(CryptoError::AuthenticationFailure));
    assert_eq!(verify(&bytes, &[], &key), Err(CryptoError::AuthenticationFailure));
    let mut other = bytes.clone();
    other[8] ^= 1;
    assert_eq!(verify(&other, &signature, &key), Err(CryptoError::AuthenticationFailure));
    let other_key = Secret::new(vec![0x76u8; 32]);
    assert_eq!(verify(&bytes, &signature, &other_key), Err(CryptoError::AuthenticationFailure));
}

#[test]
fn check_signature_compares_32_bytes() {
    let tag: Vec<u8> = (0..32).collect();
    assert_eq!(check_signature(&tag, &tag.clone()), Ok(()));
    let mut other = tag.clone();
    other[31] ^= 1;
    assert_eq!(check_signature(&tag, &other), Err(CryptoError::AuthenticationFailure));
    assert_eq!(check_signature(&tag, &tag[..31]), Err(CryptoError::AuthenticationFailure));
    assert_eq!(check_signature(&tag[..31], &tag[..31]), Err(CryptoError::AuthenticationFailure));
    assert_eq!(check_signature(&[], &[]), Err(CryptoError::AuthenticationFailure));
}

#[test]
fn sign_and_verify_refuse_a_key_that_is_not_32_bytes() {
    let short = Secret::new(vec![1u8; 31]);
    assert_eq!(sign(b"header", &short), Err(CryptoError::UsageFailure));
    assert_eq!(verify(b"header", &[0u8; 32], &short), Err(CryptoError::UsageFailure));
    let empty = Secret::new(Vec::new());
    assert_eq!(sign(b"header", &empty), Err(CryptoError::UsageFailure));
}

#[test]
fn hash_folds_header_then_signature() {
    let mut observer = Observer::new();
    hash(&mut observer, b"header bytes", b"signature bytes");
    assert_eq!(
        observer.digest(),
        blake3::hash(b"header bytessignature bytes").to_hex().to_string()
    );
}
