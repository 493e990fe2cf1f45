use dexios::observer::Observer;

#[test]
fn digest_of_nothing() {
    let observer = Observer::new();
    assert_eq!(
        observer.digest(),
        "af1349b9f5f9a1a6a0404dea36dcc9499bcb25c9adc112b7cc9a93cae41f3262"
    );
}

#[test]
fn digest_is_64_lowercase_hex_digits() {
    let mut observer = Observer::new();
    observer.update(b"some bytes");
    let digest = observer.digest();
    assert_eq!(digest.len(), 64);
    assert!(digest.chars().all(|c| c.is_ascii_digit() || ('a'..='f').contains(&c)));
}

#[test]
fn digest_does_not_depend_on_how_the_bytes_are_cut() {
    let data: Vec<u8> = (0..10_000).map(|i| (i % 256) as u8).collect();
    let mut whole = Observer::new();
    whole.update(&data);
    let mut pieces = Observer::new();
    pieces.update(&data[..1]);
    pieces.update(&data[1..4097]);
    pieces.update(&[]);
    pieces.update(&data[4097..]);
    assert_eq!(whole.digest(), pieces.digest());
    assert_eq!(whole.digest(), blake3::hash(&data).to_hex().to_string());
}

#[test]
fn an_observer_can_be_fed_after_a_digest() {
    let mut observer = Observer::new();
    observer.update(b"foo");
    let first = observer.digest();
    assert_eq!(first, blake3::hash(b"foo").to_hex().to_string());
    observer.update(b"bar");
    assert_eq!(observer.digest(), blake3::hash(b"foobar").to_hex().to_string());
    assert_ne!(observer.digest(), first);
}
