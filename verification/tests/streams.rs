use dexios::ciphers::{encrypt, nonce_len};
use dexios::error::CryptoError;
use dexios::global::enums::Algorithm;
use dexios::secret::Secret;
use dexios::streams::{DecryptStream, EncryptStream, StreamState};

const ALL: [Algorithm; 3] =
    [Algorithm::Aes256Gcm, Algorithm::XChaCha20Poly1305, Algorithm::DeoxysII256];

fn key() -> Secret {
    Secret::new(vec![0x33; 32])
}

fn base_nonce(algorithm: Algorithm) -> Vec<u8> {
    (0..nonce_len(algorithm) - 5).map(|i| 0xa0 + i as u8).collect()
}

fn block_nonce(algorithm: Algorithm, counter: u32, last: bool) -> Vec<u8> {
    let mut nonce = base_nonce(algorithm);
    nonce.extend_from_slice(&counter.to_be_bytes());
    nonce.push(last as u8);
    nonce
}

#[test]
fn every_block_is_sealed_under_base_nonce_counter_and_flag() {
    for algorithm in ALL {
        let mut stream = EncryptStream::new(algorithm, key(), &base_nonce(algorithm)).unwrap();
        assert_eq!(stream.state(), StreamState::Flowing);
        let first = stream.encrypt_next(b"block zero").unwrap();
        assert_eq!(stream.state(), StreamState::Flowing);
        let second = stream.encrypt_next(b"block one").unwrap();
        let third = stream.encrypt_last(b"tail").unwrap();
        assert_eq!(stream.state(), StreamState::Terminated);
        let k = [0x33u8; 32];
        assert_eq!(
            first,
            encrypt(algorithm, &k, &block_nonce(algorithm, 0, false), b"block zero").unwrap()
        );
        assert_eq!(
            second,
            encrypt(algorithm, &k, &block_nonce(algorithm, 1, false), b"block one").unwrap()
        );
        assert_eq!(
            third,
            encrypt(algorithm, &k, &block_nonce(algorithm, 2, true), b"tail").unwrap()
        );
    }
}

#[test]
fn the_counter_is_big_endian() {
    let algorithm = Algorithm::Aes256Gcm;
    let mut stream = EncryptStream::new(algorithm, key(), &base_nonce(algorithm)).unwrap();
    let mut sealed = Vec::new();
    for _ in 0..258 {
        sealed = stream.encrypt_next(b"x").unwrap();
    }
    // the 258th block has number 257 = 0x0101
    let mut nonce = base_nonce(algorithm);
    nonce.extend_from_slice(&[0, 0, 1, 1, 0]);
    assert_eq!(sealed, encrypt(algorithm, &[0x33u8; 32], &nonce, b"x").unwrap());
}

#[test]
fn a_fresh_stream_takes_no_block_until_it_is_started() {
    for algorithm in ALL {
        let mut stream = EncryptStream::fresh(algorithm);
        assert_eq!(stream.state(), StreamState::Fresh);
        assert_eq!(stream.encrypt_next(b"block"), Err(CryptoError::UsageFailure));
        assert_eq!(stream.encrypt_last(b"block"), Err(CryptoError::UsageFailure));
        assert_eq!(stream.state(), StreamState::Fresh);
        assert_eq!(stream.start(key(), &base_nonce(algorithm)), Ok(()));
        assert_eq!(stream.state(), StreamState::Flowing);
        let sealed = stream.encrypt_last(b"block").unwrap();
        let mut opener = DecryptStream::fresh(algorithm);
        assert_eq!(opener.state(), StreamState::Fresh);
        assert_eq!(opener.decrypt_next(&sealed), Err(CryptoError::UsageFailure));
        assert_eq!(opener.decrypt_last(&sealed), Err(CryptoError::UsageFailure));
        assert_eq!(opener.start(key(), &base_nonce(algorithm)), Ok(()));
        assert_eq!(opener.decrypt_last(&sealed).unwrap(), b"block");
    }
}

#[test]
fn a_stream_is_started_once() {
    for algorithm in ALL {
        let mut stream = EncryptStream::fresh(algorithm);
        assert_eq!(
            stream.start(Secret::new(vec![0; 31]), &base_nonce(algorithm)),
            Err(CryptoError::UsageFailure)
        );
        assert_eq!(stream.start(key(), &[]), Err(CryptoError::UsageFailure));
        assert_eq!(stream.state(), StreamState::Fresh);
        assert_eq!(stream.start(key(), &base_nonce(algorithm)), Ok(()));
        assert_eq!(stream.start(key(), &base_nonce(algorithm)), Err(CryptoError::UsageFailure));
        assert_eq!(stream.state(), StreamState::Flowing);
        stream.encrypt_last(b"").unwrap();
        assert_eq!(stream.start(key(), &base_nonce(algorithm)), Err(CryptoError::UsageFailure));
        assert_eq!(stream.state(), StreamState::Terminated);
    }
}

#[test]
fn a_started_stream_may_end_at_once() {
    for algorithm in ALL {
        let mut stream = EncryptStream::new(algorithm, key(), &base_nonce(algorithm)).unwrap();
        let only = stream.encrypt_last(b"").unwrap();
        assert_eq!(only.len(), 16);
        assert_eq!(stream.state(), StreamState::Terminated);
        let mut opener = DecryptStream::new(algorithm, key(), &base_nonce(algorithm)).unwrap();
        assert_eq!(opener.decrypt_last(&only).unwrap(), b"");
        assert_eq!(opener.state(), StreamState::Terminated);
    }
}

#[test]
fn a_terminated_stream_is_exhausted() {
    for algorithm in ALL {
        let mut stream = EncryptStream::new(algorithm, key(), &base_nonce(algorithm)).unwrap();
        let sealed = stream.encrypt_last(b"end").unwrap();
        assert_eq!(stream.encrypt_next(b"more"), Err(CryptoError::StreamExhausted));
        assert_eq!(stream.encrypt_last(b"more"), Err(CryptoError::StreamExhausted));
        assert_eq!(stream.state(), StreamState::Terminated);
        let mut opener = DecryptStream::new(algorithm, key(), &base_nonce(algorithm)).unwrap();
        assert_eq!(opener.decrypt_last(&sealed).unwrap(), b"end");
        assert_eq!(opener.decrypt_next(&sealed), Err(CryptoError::StreamExhausted));
        assert_eq!(opener.decrypt_last(&sealed), Err(CryptoError::StreamExhausted));
    }
}

#[test]
fn stream_round_trip_block_by_block() {
    for algorithm in ALL {
        let mut stream = EncryptStream::new(algorithm, key(), &base_nonce(algorithm)).unwrap();
        let a = stream.encrypt_next(b"first").unwrap();
        let b = stream.encrypt_next(b"second").unwrap();
        let c = stream.encrypt_last(b"third").unwrap();
        let mut opener = DecryptStream::new(algorithm, key(), &base_nonce(algorithm)).unwrap();
        assert_eq!(opener.state(), StreamState::Flowing);
        assert_eq!(opener.decrypt_next(&a).unwrap(), b"first");
        assert_eq!(opener.state(), StreamState::Flowing);
        assert_eq!(opener.decrypt_next(&b).unwrap(), b"second");
        assert_eq!(opener.decrypt_last(&c).unwrap(), b"third");
        assert_eq!(opener.state(), StreamState::Terminated);
    }
}

#[test]
fn blocks_out_of_place_do_not_open() {
    for algorithm in ALL {
        let mut stream = EncryptStream::new(algorithm, key(), &base_nonce(algorithm)).unwrap();
        let a = stream.encrypt_next(b"first").unwrap();
        let b = stream.encrypt_next(b"second").unwrap();
        let c = stream.encrypt_last(b"third").unwrap();
        // second block in first place
        let mut opener = DecryptStream::new(algorithm, key(), &base_nonce(algorithm)).unwrap();
        assert_eq!(opener.decrypt_next(&b), Err(CryptoError::AuthenticationFailure));
        // a failure leaves the stream where it was
        assert_eq!(opener.state(), StreamState::Flowing);
        assert_eq!(opener.decrypt_next(&a).unwrap(), b"first");
        // a block that is not the last, taken as the last
        assert_eq!(opener.decrypt_last(&b), Err(CryptoError::AuthenticationFailure));
        // the last block, taken as one that is not the last
        assert_eq!(opener.decrypt_next(&b).unwrap(), b"second");
        assert_eq!(opener.decrypt_next(&c), Err(CryptoError::AuthenticationFailure));
        assert_eq!(opener.decrypt_last(&c).unwrap(), b"third");
    }
}

#[test]
fn new_refuses_wrong_lengths() {
    for algorithm in ALL {
        let base = base_nonce(algorithm);
        assert!(matches!(
            EncryptStream::new(algorithm, Secret::new(vec![0; 31]), &base),
            Err(CryptoError::UsageFailure)
        ));
        assert!(matches!(
            EncryptStream::new(algorithm, key(), &vec![0; nonce_len(algorithm)]),
            Err(CryptoError::UsageFailure)
        ));
        assert!(matches!(
            DecryptStream::new(algorithm, Secret::new(vec![0; 33]), &base),
            Err(CryptoError::UsageFailure)
        ));
        assert!(matches!(
            DecryptStream::new(algorithm, key(), &base[1..]),
            Err(CryptoError::UsageFailure)
        ));
    }
}
