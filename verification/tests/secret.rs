use dexios::secret::Secret;

#[test]
fn expose_gives_the_bytes_back() {
    let secret = Secret::new(vec![1, 2, 3]);
    assert_eq!(secret.expose(), &vec![1, 2, 3]);
}

#[test]
fn a_duplicate_outlives_its_source() {
    let source = Secret::new(b"key material".to_vec());
    let copy = source.duplicate();
    drop(source);
    assert_eq!(copy.expose().as_slice(), b"key material");
}

#[test]
fn wipe_leaves_nothing_behind() {
    let mut secret = Secret::new(b"key material".to_vec());
    secret.wipe();
    assert!(secret.expose().is_empty());
    // a wiped holder can be wiped again and dropped
    secret.wipe();
    assert!(secret.expose().is_empty());
}

#[test]
fn an_empty_secret_is_allowed() {
    assert!(Secret::new(Vec::new()).expose().is_empty());
}
