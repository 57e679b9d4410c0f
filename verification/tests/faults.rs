use fact_cli::errors::{FactError, IoKind};
use fact_cli::faults::{
    canonical_json_error_message, commitment_error_message, core_error_message,
    crypto_error_message, markdown_error_message, schema_error_message, sdk_error_message,
    search_error_message, store_error_message, user_facing_error, CanonicalError,
    CommitmentError, CoreError, CryptoError, MarkdownError, ReportedError, SchemaError,
    SdkError, SearchError, StoreError,
};

#[test]
fn canonical_syntax_message_names_the_byte() {
    assert_eq!(
        canonical_json_error_message(&CanonicalError::Syntax(17)),
        "JSON input is invalid near byte 17"
    );
    assert_eq!(
        canonical_json_error_message(&CanonicalError::Duplicate("title".to_owned())),
        "JSON input has the same object key more than once: title"
    );
}

#[test]
fn markdown_and_schema_messages() {
    assert_eq!(
        markdown_error_message(&MarkdownError::Whitespace),
        "Markdown cannot contain tabs or trailing spaces"
    );
    assert_eq!(
        schema_error_message(&SchemaError::Missing("body".to_owned())),
        "the Fact object is missing a required field: body"
    );
    assert_eq!(
        schema_error_message(&SchemaError::Canonical(CanonicalError::Eof)),
        "JSON input ended before the object was complete"
    );
}

#[test]
fn crypto_search_commitment_core_messages() {
    assert_eq!(
        crypto_error_message(&CryptoError::Seed),
        "the signing seed is invalid; it must decode to exactly 32 bytes"
    );
    assert_eq!(
        search_error_message(&SearchError::Sql("disk I/O error".to_owned())),
        "Fact could not read or write the local search database: disk I/O error"
    );
    assert_eq!(
        search_error_message(&SearchError::Markdown(MarkdownError::Unsupported)),
        "Markdown uses formatting that Fact does not support yet"
    );
    assert_eq!(
        commitment_error_message(&CommitmentError::Present),
        "that object hash is already present in the commitment"
    );
    assert_eq!(
        core_error_message(&CoreError::InvalidTimestamp("yesterday".to_owned())),
        "that timestamp is not valid: yesterday"
    );
}

#[test]
fn store_messages_follow_nested_failures() {
    assert_eq!(
        store_error_message(&StoreError::Unauthorized),
        "your current identity does not have permission to do that in this ledger"
    );
    assert_eq!(
        store_error_message(&StoreError::Schema(SchemaError::UnknownBodyField("x".to_owned()))),
        "the Fact object body has an unknown field: x"
    );
    assert_eq!(
        store_error_message(&StoreError::Cose(CryptoError::MalformedCose)),
        "the signed object envelope is malformed and cannot be read"
    );
}

#[test]
fn sdk_messages() {
    assert_eq!(
        sdk_error_message(&SdkError::AmbiguousReference("ab12".to_owned())),
        "that reference is ambiguous: ab12. Use a full proposition or revision ID, or choose --pending/--latest when the command supports it"
    );
    assert_eq!(
        sdk_error_message(&SdkError::Validation("title is required".to_owned())),
        "title is required"
    );
    assert_eq!(
        sdk_error_message(&SdkError::Io { kind: IoKind::NotFound, text: "x.md".to_owned() }),
        "file or directory not found: x.md"
    );
    assert_eq!(
        sdk_error_message(&SdkError::Store(StoreError::MissingLedger)),
        "the object belongs to a ledger that is not available locally"
    );
    assert_eq!(
        sdk_error_message(&SdkError::ReadOnlyLedger),
        "this ledger is read-only; use a local ledger where your identity has permission"
    );
}

#[test]
fn user_facing_error_dispatches_on_the_source() {
    assert_eq!(
        user_facing_error(&ReportedError::Fact(FactError::Uuid("bad length".to_owned()))),
        "that ID is not a valid UUID: bad length"
    );
    assert_eq!(
        user_facing_error(&ReportedError::Core(CoreError::InvalidHash)),
        "object hashes must be 64 lowercase hexadecimal characters"
    );
    assert_eq!(
        user_facing_error(&ReportedError::Other("something else".to_owned())),
        "something else"
    );
}
