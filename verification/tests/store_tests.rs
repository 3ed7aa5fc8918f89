use magictax::amount::Amount;
use magictax::crypt::{decrypt_bytes, encrypt_bytes, IoKind, StoreError};
use magictax::csv::{Csv, CsvRow};
use magictax::file::{File, FileError};
use magictax::KEY;

fn row(label: &str, cents: i64) -> CsvRow {
    CsvRow {
        label: label.to_string(),
        value: Amount::from_cents(cents).expect("in range"),
    }
}

#[test]
fn encrypt_decrypt_round_trip() {
    let container = encrypt_bytes(b"my secret data", b"password").expect("encryption works");
    assert_ne!(&container[..], b"my secret data");
    let plain = decrypt_bytes(&container, b"password").expect("same key decrypts");
    assert_eq!(plain, b"my secret data");
}

#[test]
fn wrong_passphrase_is_rejected() {
    let container = encrypt_bytes(b"my secret data", b"password").expect("encryption works");
    let error = decrypt_bytes(&container, b"other password").expect_err("wrong key must fail");
    assert_eq!(error, StoreError::WrongPassphraseOrTampered);
}

#[test]
fn tampered_container_is_rejected() {
    let mut container = encrypt_bytes(b"my secret data", b"password").expect("encryption works");
    let last = container.len() - 1;
    container[last] ^= 0x01;
    let error = decrypt_bytes(&container, b"password").expect_err("tampering must fail");
    assert_eq!(error, StoreError::WrongPassphraseOrTampered);
}

#[test]
fn garbage_is_not_a_container() {
    let error = decrypt_bytes(&[1, 2, 3], b"password").expect_err("too short to be a container");
    assert_eq!(error, StoreError::UnrecognizedFormat);

    let error = decrypt_bytes(&[0u8; 100], b"password").expect_err("wrong magic bytes");
    assert_eq!(error, StoreError::UnrecognizedFormat);
}

#[test]
fn truncated_container_is_too_short() {
    let container = encrypt_bytes(b"a payload of some length", b"password").expect("encryption works");
    // Keep the header and tag intact but cut the payload short: the length
    // field then claims more data than the container holds.
    let truncated = &container[..container.len() - 5];
    let error = decrypt_bytes(truncated, b"password").expect_err("truncation must fail");
    assert_eq!(error, StoreError::TooShort);
}

#[test]
fn save_and_open_round_trip() {
    let file = File::from_parts(
        None,
        Csv {
            rows: vec![row("foo", 12300), row("bar", 45600), row("", -125)],
        },
        false,
    );
    let container = file.encode_encrypted(KEY).expect("encryption works");

    let opened = File::open_decrypted("some/path".to_string(), &container, KEY)
        .expect("same key opens");
    assert_eq!(opened.contents().rows, file.contents().rows);
    assert_eq!(opened.path().map(String::as_str), Some("some/path"));
    assert!(opened.is_registered_and_saved());
    assert!(!opened.is_changed());
}

#[test]
fn open_with_wrong_passphrase_fails() {
    let file = File::from_parts(None, Csv { rows: vec![row("foo", 100)] }, false);
    let container = file.encode_encrypted(KEY).expect("encryption works");

    let error = File::open_decrypted("p".to_string(), &container, "not the passphrase")
        .expect_err("wrong passphrase must fail");
    assert_eq!(error, FileError::Crypto(StoreError::WrongPassphraseOrTampered));
}

#[test]
fn opened_bytes_that_are_no_text_fail() {
    let container = encrypt_bytes(&[0xff, 0xfe, 0x00], b"k").expect("encryption works");
    let error = File::open_decrypted("p".to_string(), &container, "k")
        .expect_err("not UTF-8");
    assert_eq!(error, FileError::Crypto(StoreError::Io(IoKind::InvalidData)));
}

#[test]
fn opened_text_that_is_no_document_fails() {
    let container = encrypt_bytes(b"label without a value", b"k").expect("encryption works");
    let error = File::open_decrypted("p".to_string(), &container, "k")
        .expect_err("no separator in the line");
    assert_eq!(
        error,
        FileError::CsvParse(magictax::csv::ParseError::MissingValue)
    );
    assert_eq!(error.message(), "Failed to parse csv: Missing value");
}

#[test]
fn store_error_messages() {
    assert_eq!(
        StoreError::WrongPassphraseOrTampered.message(),
        "Invalid password for file. This file is not accessible with this program"
    );
    assert_eq!(
        StoreError::UnrecognizedFormat.message(),
        "Unrecognized file type or format"
    );
    assert_eq!(
        StoreError::TooShort.message(),
        "File too short to decrypt. This most likely means it was not encrypted properly"
    );
    assert_eq!(
        StoreError::TooLarge.message(),
        "File too large to decrypt. This most likely means it was not encrypted properly"
    );
    assert_eq!(StoreError::Io(IoKind::PermissionDenied).message(), "Permission denied");
}
