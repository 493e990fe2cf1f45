use dexios::global::enums::{Algorithm, HashMode};
use dexios::global::parameters::{
    decrypt_additional_params, encrypt_additional_params, erase_params, get_param,
    parameter_handler, passes_from, read_passes, skipmode, Arg, Matches, ParamError,
};
use dexios::global::states::{EraseMode, HeaderFile, KeyFile, PasswordMode, SkipMode};

fn matches(args: &[(&str, Option<&str>)]) -> Matches {
    Matches {
        args: args
            .iter()
            .map(|(name, value)| Arg { name: name.to_string(), value: value.map(str::to_string) })
            .collect(),
    }
}

#[test]
fn lookups() {
    let m = matches(&[("input", Some("a.txt")), ("hash", None), ("input", Some("b.txt"))]);
    assert!(m.is_present("input"));
    assert!(m.is_present("hash"));
    assert!(!m.is_present("output"));
    assert!(!m.is_present("inpu"));
    assert_eq!(m.value_of("input"), Some(&"a.txt".to_string()));
    assert_eq!(m.value_of("hash"), None);
    assert_eq!(m.value_of("output"), None);
}

#[test]
fn get_param_gives_the_value_or_names_what_is_missing() {
    let m = matches(&[("input", Some("a.txt")), ("hash", None)]);
    assert_eq!(get_param("input", &m).unwrap(), "a.txt");
    assert!(matches!(get_param("output", &m), Err(ParamError::Missing(name)) if name == "output"));
    assert!(matches!(get_param("hash", &m), Err(ParamError::Missing(name)) if name == "hash"));
}

#[test]
fn messages_of_the_errors() {
    let m = matches(&[("hash", None)]);
    assert_eq!(get_param("input", &m).unwrap_err().message(), "No input provided");
    assert_eq!(get_param("output", &m).unwrap_err().message(), "No output provided");
    assert_eq!(ParamError::Missing(String::new()).message(), "No  provided");
    assert_eq!(ParamError::NoKeyfile.message(), "No keyfile/invalid text provided");
    assert_eq!(ParamError::NoPasses.message(), "No amount of passes specified");
    assert_eq!(ParamError::NoAead.message(), "Error reading value of --aead");
    assert_eq!(
        ParamError::InvalidAead.message(),
        "Invalid AEAD selected! Use \"dexios list aead\" to see all possible values."
    );
    assert_eq!(ParamError::NoHeader.message(), "No header/invalid text provided");
}

#[test]
fn skipmode_follows_skip() {
    assert_eq!(skipmode(&matches(&[("skip", None)])), SkipMode::HidePrompts);
    assert_eq!(skipmode(&matches(&[("hash", None)])), SkipMode::ShowPrompts);
    assert_eq!(skipmode(&matches(&[])), SkipMode::ShowPrompts);
}

#[test]
fn parameter_handler_defaults() {
    let p = parameter_handler(&matches(&[])).unwrap();
    assert!(matches!(p.keyfile, KeyFile::Absent));
    assert_eq!(p.hash_mode, HashMode::NoHash);
    assert_eq!(p.skip, SkipMode::ShowPrompts);
    assert_eq!(p.erase, EraseMode::IgnoreFile(0));
    assert_eq!(p.password, PasswordMode::NormalKeySourcePriority);
}

#[test]
fn parameter_handler_reads_every_argument() {
    let p = parameter_handler(&matches(&[
        ("keyfile", Some("key.bin")),
        ("hash", None),
        ("skip", None),
        ("erase", Some("7")),
        ("password", None),
    ]))
    .unwrap();
    assert!(matches!(p.keyfile, KeyFile::Given(name) if name == "key.bin"));
    assert_eq!(p.hash_mode, HashMode::CalculateHash);
    assert_eq!(p.skip, SkipMode::HidePrompts);
    assert_eq!(p.erase, EraseMode::EraseFile(7));
    assert_eq!(p.password, PasswordMode::ForceUserProvidedPassword);
}

#[test]
fn parameter_handler_falls_back_to_two_passes() {
    let p = parameter_handler(&matches(&[("erase", Some("many"))])).unwrap();
    assert_eq!(p.erase, EraseMode::EraseFile(2));
    let p = parameter_handler(&matches(&[("erase", Some("-3"))])).unwrap();
    assert_eq!(p.erase, EraseMode::EraseFile(-3));
    let p = parameter_handler(&matches(&[("erase", Some("2147483648"))])).unwrap();
    assert_eq!(p.erase, EraseMode::EraseFile(2));
}

#[test]
fn parameter_handler_refuses_arguments_without_their_value() {
    assert!(matches!(
        parameter_handler(&matches(&[("keyfile", None)])),
        Err(ParamError::NoKeyfile)
    ));
    assert!(matches!(parameter_handler(&matches(&[("erase", None)])), Err(ParamError::NoPasses)));
    assert!(matches!(
        parameter_handler(&matches(&[("erase", None), ("keyfile", None)])),
        Err(ParamError::NoKeyfile)
    ));
}

#[test]
fn passes_from_what_was_read() {
    assert_eq!(passes_from(Some(16)), (16, false));
    assert_eq!(passes_from(Some(0)), (0, false));
    assert_eq!(passes_from(Some(-1)), (-1, false));
    assert_eq!(passes_from(None), (2, true));
}

#[test]
fn read_passes_says_when_the_default_stood_in() {
    assert_eq!(read_passes("16"), (16, false));
    assert_eq!(read_passes("0"), (0, false));
    assert_eq!(read_passes("sixteen"), (2, true));
    assert_eq!(read_passes(""), (2, true));
}

#[test]
fn passes_are_read_as_a_sign_and_decimal_digits() {
    assert_eq!(read_passes("+5"), (5, false));
    assert_eq!(read_passes("-5"), (-5, false));
    assert_eq!(read_passes("-0"), (0, false));
    assert_eq!(read_passes("007"), (7, false));
    assert_eq!(read_passes("0000000000000000000012"), (12, false));
    assert_eq!(read_passes("2147483647"), (2147483647, false));
    assert_eq!(read_passes("-2147483648"), (-2147483648, false));
    // out of range, or not a number
    assert_eq!(read_passes("2147483648"), (2, true));
    assert_eq!(read_passes("-2147483649"), (2, true));
    assert_eq!(read_passes("+"), (2, true));
    assert_eq!(read_passes("-"), (2, true));
    assert_eq!(read_passes("+-5"), (2, true));
    assert_eq!(read_passes("--5"), (2, true));
    assert_eq!(read_passes(" 5"), (2, true));
    assert_eq!(read_passes("5 "), (2, true));
    assert_eq!(read_passes("5_0"), (2, true));
    assert_eq!(read_passes("0x10"), (2, true));
    assert_eq!(read_passes("1.0"), (2, true));
    assert_eq!(read_passes("\u{0663}"), (2, true));
}

#[test]
fn the_number_of_an_algorithm_takes_no_minus_sign() {
    let select = |value: &str| encrypt_additional_params(&matches(&[("aead", Some(value))]));
    assert_eq!(select("+2").unwrap(), Algorithm::XChaCha20Poly1305);
    assert_eq!(select("02").unwrap(), Algorithm::XChaCha20Poly1305);
    assert_eq!(select("0003").unwrap(), Algorithm::DeoxysII256);
    assert!(matches!(select("-0"), Err(ParamError::InvalidAead)));
    assert!(matches!(select("-2"), Err(ParamError::InvalidAead)));
    assert!(matches!(select("+"), Err(ParamError::InvalidAead)));
    assert!(matches!(select("2 "), Err(ParamError::InvalidAead)));
    assert!(matches!(select("99999999999999999999999999"), Err(ParamError::InvalidAead)));
}

#[test]
fn encrypt_additional_params_selects_by_number() {
    let select = |value: &str| encrypt_additional_params(&matches(&[("aead", Some(value))]));
    assert_eq!(select("1").unwrap(), Algorithm::Aes256Gcm);
    assert_eq!(select("2").unwrap(), Algorithm::XChaCha20Poly1305);
    assert_eq!(select("3").unwrap(), Algorithm::DeoxysII256);
    assert!(matches!(select("0"), Err(ParamError::InvalidAead)));
    assert!(matches!(select("4"), Err(ParamError::InvalidAead)));
    assert!(matches!(select("-1"), Err(ParamError::InvalidAead)));
    assert!(matches!(select("aes"), Err(ParamError::InvalidAead)));
    assert!(matches!(select(""), Err(ParamError::InvalidAead)));
}

#[test]
fn encrypt_additional_params_defaults_to_the_first_algorithm() {
    assert_eq!(encrypt_additional_params(&matches(&[])).unwrap(), Algorithm::Aes256Gcm);
    assert!(matches!(
        encrypt_additional_params(&matches(&[("aead", None)])),
        Err(ParamError::NoAead)
    ));
}

#[test]
fn decrypt_additional_params_names_the_header_file() {
    assert!(matches!(decrypt_additional_params(&matches(&[])), Ok(HeaderFile::Absent)));
    assert!(matches!(
        decrypt_additional_params(&matches(&[("header", Some("file.hdr"))])),
        Ok(HeaderFile::Given(name)) if name == "file.hdr"
    ));
    assert!(matches!(
        decrypt_additional_params(&matches(&[("header", None)])),
        Err(ParamError::NoHeader)
    ));
}

#[test]
fn erase_params_reads_passes() {
    assert_eq!(erase_params(&matches(&[])).unwrap(), 2);
    assert_eq!(erase_params(&matches(&[("passes", Some("32"))])).unwrap(), 32);
    assert_eq!(erase_params(&matches(&[("passes", Some("x"))])).unwrap(), 2);
    assert!(matches!(erase_params(&matches(&[("passes", None)])), Err(ParamError::NoPasses)));
}
