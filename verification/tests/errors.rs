use fact_cli::errors::{io_error_message, user_error, FactError, IoKind};
use fact_cli::ids::version_of;

#[test]
fn failures_are_shown_with_their_kind() {
    assert_eq!(user_error("plain".into()).message(), "plain");
    assert_eq!(FactError::Json("eof".into()).message(), "Fact could not read JSON input: eof");
    assert_eq!(FactError::Uuid("bad".into()).message(), "that ID is not a valid UUID: bad");
    assert_eq!(FactError::Hex("odd".into()).message(), "expected lowercase hexadecimal bytes: odd");
    assert_eq!(FactError::TomlDecode("x".into()).message(), "Fact could not read its local configuration: x");
    assert_eq!(FactError::TomlEncode("y".into()).message(), "Fact could not write its local configuration: y");
    assert_eq!(
        FactError::Io { kind: IoKind::NotFound, text: "gone".into() }.message(),
        "file or directory not found: gone"
    );
    assert_eq!(io_error_message(&IoKind::PermissionDenied, "p"), "permission denied while reading or writing a file: p");
    assert_eq!(io_error_message(&IoKind::AlreadyExists, "e"), "file already exists: e");
    assert_eq!(io_error_message(&IoKind::Other, "o"), "I/O failed: o");
    let remote = |timeout, connect, decode| FactError::Remote { timeout, connect, decode, text: "t".into() }.message();
    assert_eq!(remote(true, true, true), "the remote ledger did not respond before the request timed out: t");
    assert_eq!(remote(false, true, false), "Fact could not connect to the remote ledger: t");
    assert_eq!(remote(false, false, true), "Fact could not read the remote ledger response: t");
    assert_eq!(remote(false, false, false), "remote ledger request failed: t");
}

#[test]
fn uuid_versions_are_read_from_the_version_nibble() {
    assert_eq!(version_of(uuid::Uuid::now_v7().as_u128()), 7);
    assert_eq!(version_of(uuid::Uuid::new_v4().as_u128()), 4);
    assert_eq!(version_of(0), 0);
}
