use dexios::decrypt::crypto::container_parts;
use dexios::encrypt::crypto::{container_of, report};
use dexios::global::enums::{Algorithm, BenchMode, CipherMode, HashMode, HeaderVersion};
use dexios::global::structs::{Header, HeaderType};

fn header() -> Header {
    Header {
        header_type: HeaderType {
            header_version: HeaderVersion::V3,
            cipher_mode: CipherMode::MemoryMode,
            algorithm: Algorithm::Aes256Gcm,
        },
        nonce: vec![1; 12],
        salt: [2; 16],
    }
}

#[test]
fn container_of_joins_the_three_parts_in_order() {
    assert_eq!(container_of(b"head", b"sig", b"body"), b"headsigbody");
    assert_eq!(container_of(b"", b"", b""), b"");
    assert_eq!(container_of(b"h", b"", b"b"), b"hb");
}

#[test]
fn container_parts_cuts_at_64_and_96() {
    let container: Vec<u8> = (0..200).map(|i| i as u8).collect();
    let (head, signature, body) = container_parts(&container).unwrap();
    assert_eq!(head, &container[..64]);
    assert_eq!(signature, &container[64..96]);
    assert_eq!(body, &container[96..]);
    let (_, _, body) = container_parts(&container[..96]).unwrap();
    assert!(body.is_empty());
    assert!(container_parts(&container[..95]).is_none());
    assert!(container_parts(&[]).is_none());
}

#[test]
fn container_parts_undoes_container_of() {
    let head = [7u8; 64];
    let signature = [8u8; 32];
    let body = [9u8; 40];
    let container = container_of(&head, &signature, &body);
    let parts = container_parts(&container).unwrap();
    assert_eq!(parts, (&head[..], &signature[..], &body[..]));
}

#[test]
fn report_follows_the_two_flags() {
    let digest = blake3::hash(b"container").to_hex().to_string();
    let out = report(
        header(),
        b"container".to_vec(),
        BenchMode::WriteToFilesystem,
        HashMode::CalculateHash,
    );
    assert_eq!(out.container, Some(b"container".to_vec()));
    assert_eq!(out.digest, Some(digest.clone()));
    assert_eq!(out.header.nonce, vec![1; 12]);
    let out =
        report(header(), b"container".to_vec(), BenchMode::WriteToFilesystem, HashMode::NoHash);
    assert_eq!(out.container, Some(b"container".to_vec()));
    assert_eq!(out.digest, None);
    let out = report(
        header(),
        b"container".to_vec(),
        BenchMode::BenchmarkInMemory,
        HashMode::CalculateHash,
    );
    assert_eq!(out.container, None);
    assert_eq!(out.digest, Some(digest));
    let out =
        report(header(), b"container".to_vec(), BenchMode::BenchmarkInMemory, HashMode::NoHash);
    assert_eq!(out.container, None);
    assert_eq!(out.digest, None);
}
