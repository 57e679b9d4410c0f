//! The failures reported by the ledger libraries that `fact` builds on, held
//! as plain values, and the sentence shown to the user for each.

use vstd::prelude::*;
use crate::errors::{FactError, IoKind, io_message, io_error_message};
use crate::text::{concat, decimal, decimal_text};

verus! {

/// A canonical JSON object could not be read.
#[derive(Debug)]
pub enum CanonicalError {
    Utf8,
    Eof,
    /// Invalid JSON near the given byte.
    Syntax(usize),
    /// A key that occurs twice in one object.
    Duplicate(String),
    NonNfc,
    Number,
    NotCanonical,
}

/// A Markdown document is not in canonical form.
#[derive(Debug)]
pub enum MarkdownError {
    Utf8,
    NonCanonical,
    Whitespace,
    Unsupported,
}

/// A Fact object does not follow the protocol schema.
#[derive(Debug)]
pub enum SchemaError {
    Canonical(CanonicalError),
    NotObject,
    Missing(String),
    UnknownType,
    Version,
    ForbiddenLedger,
    MissingLedger,
    UnknownField,
    WrongType(String),
    InvalidUuid(String),
    InvalidTimestamp,
    MissingBodyField(String),
    InvalidBody(String),
    UnknownBodyField(String),
}

/// A signing key, signature or signed envelope is not valid.
#[derive(Debug)]
pub enum CryptoError {
    Seed,
    Public,
    Signature,
    MalformedCose,
    UnsupportedCose,
}

/// The local search index or a search request failed.
#[derive(Debug)]
pub enum SearchError {
    Grammar,
    Scale,
    Range,
    Sentinel,
    Markdown(MarkdownError),
    /// The database failure, by its text.
    Sql(String),
    FtsUnavailable,
    StoredHash,
    InvalidQuery,
    InvalidCursor,
}

/// A commitment over object hashes could not be made or checked.
#[derive(Debug)]
pub enum CommitmentError {
    Duplicate,
    Index,
    InvalidProof,
    Present,
}

/// A hash, ID or timestamp is not well formed.
#[derive(Debug)]
pub enum CoreError {
    InvalidHash,
    InvalidUuid(String),
    InvalidTimestamp(String),
}

/// The local ledger store refused or failed an operation.
#[derive(Debug)]
pub enum StoreError {
    Canonical(CanonicalError),
    /// The database failure, by its text.
    Sql(String),
    Duplicate,
    PayloadMismatch,
    HashMismatch,
    InvalidUuid(String),
    InvalidNamespace,
    Schema(SchemaError),
    Cose(CryptoError),
    Metadata,
    MissingKey,
    InvalidSignature,
    MissingDependency,
    DependencyHashMismatch,
    InvalidDependency,
    MissingLedger,
    ProjectedMismatch,
    StateProjected,
    InvalidPublicKey,
    Unauthorized,
    TimeUncertain,
    InvalidLineage,
    PolicyRejected,
    SearchIndex(String),
    IndexedPropositionStale,
}

/// A ledger operation of the client library failed.
#[derive(Debug)]
pub enum SdkError {
    Validation(String),
    Schema(SchemaError),
    Canonical(CanonicalError),
    Markdown(MarkdownError),
    Crypto(CryptoError),
    Store(StoreError),
    Search(SearchError),
    Sync(String),
    Commitment(CommitmentError),
    Authorization(String),
    ReadOnlyLedger,
    MissingObject(String),
    AmbiguousReference(String),
    NotImplemented(String),
    Conflict(String),
    Projected(String),
    Io { kind: IoKind, text: String },
    /// The configuration reader's failure, by its text.
    TomlDecode(String),
    /// The configuration writer's failure, by its text.
    TomlEncode(String),
    /// The JSON reader's failure, by its text.
    Json(String),
    /// The hexadecimal decoder's failure, by its text.
    Hex(String),
    /// The UUID parser's failure, by its text.
    Uuid(String),
    Message(String),
}

/// Any failure that reaches the top of a `fact` command.
#[derive(Debug)]
pub enum ReportedError {
    Fact(FactError),
    Sdk(SdkError),
    Store(StoreError),
    Markdown(MarkdownError),
    Canonical(CanonicalError),
    Schema(SchemaError),
    Crypto(CryptoError),
    Search(SearchError),
    Commitment(CommitmentError),
    Core(CoreError),
    /// A failure of another kind, by its text.
    Other(String),
}

pub open spec fn canonical_message(e: CanonicalError) -> Seq<char> {
    match e {
        CanonicalError::Utf8 => "JSON input must be valid UTF-8 without a byte-order mark"@,
        CanonicalError::Eof => "JSON input ended before the object was complete"@,
        CanonicalError::Syntax(position) => "JSON input is invalid near byte "@ + decimal(
            position as nat,
        ),
        CanonicalError::Duplicate(key) => "JSON input has the same object key more than once: "@
            + key@,
        CanonicalError::NonNfc => "JSON strings must use normalized Unicode text"@,
        CanonicalError::Number => "JSON numbers must be integers in canonical Fact objects"@,
        CanonicalError::NotCanonical =>
            "JSON input is valid, but it is not in canonical Fact format; write it with sorted object keys and no extra whitespace"@,
    }
}

pub open spec fn markdown_message(e: MarkdownError) -> Seq<char> {
    match e {
        MarkdownError::Utf8 => "Markdown must be valid UTF-8 without a byte-order mark"@,
        MarkdownError::NonCanonical =>
            "Markdown is not in canonical Fact format; use a single H1 title, normalized line endings, and a final newline"@,
        MarkdownError::Whitespace => "Markdown cannot contain tabs or trailing spaces"@,
        MarkdownError::Unsupported => "Markdown uses formatting that Fact does not support yet"@,
    }
}

pub open spec fn schema_message(e: SchemaError) -> Seq<char> {
    match e {
        SchemaError::Canonical(c) => canonical_message(c),
        SchemaError::NotObject => "Fact objects must be JSON objects"@,
        SchemaError::Missing(field) => "the Fact object is missing a required field: "@ + field@,
        SchemaError::UnknownType => "the Fact object type is not recognized"@,
        SchemaError::Version => "the Fact object uses an unsupported schema version"@,
        SchemaError::ForbiddenLedger => "this kind of Fact object must not include a ledger ID"@,
        SchemaError::MissingLedger => "this kind of Fact object must include a ledger ID"@,
        SchemaError::UnknownField => "the Fact object has fields that are not part of the protocol"@,
        SchemaError::WrongType(field) => "the Fact object field has the wrong type: "@ + field@,
        SchemaError::InvalidUuid(field) => "the Fact object has an invalid UUID in field: "@
            + field@,
        SchemaError::InvalidTimestamp => "the Fact object has an invalid timestamp"@,
        SchemaError::MissingBodyField(field) =>
            "the Fact object body is missing a required field: "@ + field@,
        SchemaError::InvalidBody(field) => "the Fact object body has an invalid field: "@ + field@,
        SchemaError::UnknownBodyField(field) => "the Fact object body has an unknown field: "@
            + field@,
    }
}

pub open spec fn crypto_message(e: CryptoError) -> Seq<char> {
    match e {
        CryptoError::Seed => "the signing seed is invalid; it must decode to exactly 32 bytes"@,
        CryptoError::Public => "the public signing key is invalid"@,
        CryptoError::Signature => "the object signature is invalid"@,
        CryptoError::MalformedCose => "the signed object envelope is malformed and cannot be read"@,
        CryptoError::UnsupportedCose => "the signed object envelope uses an unsupported format"@,
    }
}

pub open spec fn search_message(e: SearchError) -> Seq<char> {
    match e {
        SearchError::Grammar => "the search score is not valid"@,
        SearchError::Scale => "the search score is too precise"@,
        SearchError::Range => "the search score is outside the allowed range"@,
        SearchError::Sentinel => "this search profile requires a zero score"@,
        SearchError::Markdown(m) => markdown_message(m),
        SearchError::Sql(text) => "Fact could not read or write the local search database: "@
            + text@,
        SearchError::FtsUnavailable => "the local SQLite build does not support full-text search"@,
        SearchError::StoredHash =>
            "the local search index contains an invalid object hash; rebuild the index and try again"@,
        SearchError::InvalidQuery => "the search query object is invalid"@,
        SearchError::InvalidCursor => "the search cursor is invalid or no longer matches this query"@,
    }
}

pub open spec fn commitment_message(e: CommitmentError) -> Seq<char> {
    match e {
        CommitmentError::Duplicate => "the object hash list contains the same hash more than once"@,
        CommitmentError::Index => "the proof index is outside the hash list"@,
        CommitmentError::InvalidProof => "the commitment proof does not match the supplied hashes"@,
        CommitmentError::Present => "that object hash is already present in the commitment"@,
    }
}

pub open spec fn core_message(e: CoreError) -> Seq<char> {
    match e {
        CoreError::InvalidHash => "object hashes must be 64 lowercase hexadecimal characters"@,
        CoreError::InvalidUuid(value) => "that ID is not a valid UUID: "@ + value@,
        CoreError::InvalidTimestamp(value) => "that timestamp is not valid: "@ + value@,
    }
}

pub open spec fn store_message(e: StoreError) -> Seq<char> {
    match e {
        StoreError::Canonical(c) => canonical_message(c),
        StoreError::Sql(text) => "Fact could not read or write the local ledger database: "@
            + text@,
        StoreError::Duplicate => "that object already exists in the ledger"@,
        StoreError::PayloadMismatch => "the signed object payload does not match its canonical payload"@,
        StoreError::HashMismatch => "the object content hash does not match the stored object"@,
        StoreError::InvalidUuid(field) => "the object contains an invalid UUID field: "@ + field@,
        StoreError::InvalidNamespace => "the ledger namespace is invalid"@,
        StoreError::Schema(s) => schema_message(s),
        StoreError::Cose(c) => crypto_message(c),
        StoreError::Metadata => "the object contains invalid JSON metadata"@,
        StoreError::MissingKey => "the signing key for this object is not available in the ledger"@,
        StoreError::InvalidSignature => "the object signature is invalid"@,
        StoreError::MissingDependency =>
            "this object depends on ledger data that is not available locally; pull or import the missing data and try again"@,
        StoreError::DependencyHashMismatch =>
            "a dependency hash does not match the stored dependency object"@,
        StoreError::InvalidDependency => "the object contains an invalid dependency record"@,
        StoreError::MissingLedger => "the object belongs to a ledger that is not available locally"@,
        StoreError::ProjectedMismatch => "the local projected does not match the canonical object"@,
        StoreError::StateProjected =>
            "the local ledger state projected is invalid; rebuild the local state and try again"@,
        StoreError::InvalidPublicKey => "the public key in this object is invalid"@,
        StoreError::Unauthorized =>
            "your current identity does not have permission to do that in this ledger"@,
        StoreError::TimeUncertain =>
            "Fact could not tell whether the required permission was valid at that time"@,
        StoreError::InvalidLineage =>
            "that change does not fit the proposition's current history; choose the specific revision you meant and try again"@,
        StoreError::PolicyRejected => "the local ledger policy rejected that object"@,
        StoreError::SearchIndex(message) => "Fact could not read the local search index: "@
            + message@,
        StoreError::IndexedPropositionStale =>
            "the local proposition read index is stale; run `fact state rebuild` and try again"@,
    }
}

pub open spec fn sdk_message(e: SdkError) -> Seq<char> {
    match e {
        SdkError::Validation(message) => message@,
        SdkError::Schema(s) => schema_message(s),
        SdkError::Canonical(c) => canonical_message(c),
        SdkError::Markdown(m) => markdown_message(m),
        SdkError::Crypto(c) => crypto_message(c),
        SdkError::Store(s) => store_message(s),
        SdkError::Search(s) => search_message(s),
        SdkError::Sync(message) => message@,
        SdkError::Commitment(c) => commitment_message(c),
        SdkError::Authorization(message) => message@,
        SdkError::ReadOnlyLedger =>
            "this ledger is read-only; use a local ledger where your identity has permission"@,
        SdkError::MissingObject(message) => "Fact could not find that object: "@ + message@,
        SdkError::AmbiguousReference(reference) => "that reference is ambiguous: "@ + reference@
            + ". Use a full proposition or revision ID, or choose --pending/--latest when the command supports it"@,
        SdkError::NotImplemented(feature) => "this command is not implemented yet: "@ + feature@,
        SdkError::Conflict(message) => message@,
        SdkError::Projected(message) => "Fact could not read the local ledger state: "@ + message@,
        SdkError::Io { kind, text } => io_message(kind, text@),
        SdkError::TomlDecode(text) => "Fact could not read its local configuration: "@ + text@,
        SdkError::TomlEncode(text) => "Fact could not write its local configuration: "@ + text@,
        SdkError::Json(text) => "Fact could not read JSON input: "@ + text@,
        SdkError::Hex(text) => "expected lowercase hexadecimal bytes: "@ + text@,
        SdkError::Uuid(text) => "that ID is not a valid UUID: "@ + text@,
        SdkError::Message(message) => message@,
    }
}

/// The sentence shown to the user for any failure that ends a command.
pub open spec fn reported_message(e: ReportedError) -> Seq<char> {
    match e {
        ReportedError::Fact(f) => f.message_spec(),
        ReportedError::Sdk(s) => sdk_message(s),
        ReportedError::Store(s) => store_message(s),
        ReportedError::Markdown(m) => markdown_message(m),
        ReportedError::Canonical(c) => canonical_message(c),
        ReportedError::Schema(s) => schema_message(s),
        ReportedError::Crypto(c) => crypto_message(c),
        ReportedError::Search(s) => search_message(s),
        ReportedError::Commitment(c) => commitment_message(c),
        ReportedError::Core(c) => core_message(c),
        ReportedError::Other(text) => text@,
    }
}

/// The message for a canonical JSON failure.
pub fn canonical_json_error_message(error: &CanonicalError) -> (m: String)
    ensures
        m@ == canonical_message(*error),
{
    match error {
        CanonicalError::Utf8 => "JSON input must be valid UTF-8 without a byte-order mark".to_owned(),
        CanonicalError::Eof => "JSON input ended before the object was complete".to_owned(),
        CanonicalError::Syntax(position) => {
            let digits = decimal_text(*position);
            concat("JSON input is invalid near byte ", digits.as_str())
        },
        CanonicalError::Duplicate(key) => concat(
            "JSON input has the same object key more than once: ",
            key.as_str(),
        ),
        CanonicalError::NonNfc => "JSON strings must use normalized Unicode text".to_owned(),
        CanonicalError::Number => "JSON numbers must be integers in canonical Fact objects".to_owned(),
        CanonicalError::NotCanonical =>
            "JSON input is valid, but it is not in canonical Fact format; write it with sorted object keys and no extra whitespace".to_owned(),
    }
}

/// The message for a Markdown failure.
pub fn markdown_error_message(error: &MarkdownError) -> (m: String)
    ensures
        m@ == markdown_message(*error),
{
    match error {
        MarkdownError::Utf8 => "Markdown must be valid UTF-8 without a byte-order mark".to_owned(),
        MarkdownError::NonCanonical =>
            "Markdown is not in canonical Fact format; use a single H1 title, normalized line endings, and a final newline".to_owned(),
        MarkdownError::Whitespace => "Markdown cannot contain tabs or trailing spaces".to_owned(),
        MarkdownError::Unsupported => "Markdown uses formatting that Fact does not support yet".to_owned(),
    }
}

/// The message for a schema failure.
pub fn schema_error_message(error: &SchemaError) -> (m: String)
    ensures
        m@ == schema_message(*error),
{
    match error {
        SchemaError::Canonical(c) => canonical_json_error_message(c),
        SchemaError::NotObject => "Fact objects must be JSON objects".to_owned(),
        SchemaError::Missing(field) => concat(
            "the Fact object is missing a required field: ",
            field.as_str(),
        ),
        SchemaError::UnknownType => "the Fact object type is not recognized".to_owned(),
        SchemaError::Version => "the Fact object uses an unsupported schema version".to_owned(),
        SchemaError::ForbiddenLedger =>
            "this kind of Fact object must not include a ledger ID".to_owned(),
        SchemaError::MissingLedger => "this kind of Fact object must include a ledger ID".to_owned(),
        SchemaError::UnknownField =>
            "the Fact object has fields that are not part of the protocol".to_owned(),
        SchemaError::WrongType(field) => concat(
            "the Fact object field has the wrong type: ",
            field.as_str(),
        ),
        SchemaError::InvalidUuid(field) => concat(
            "the Fact object has an invalid UUID in field: ",
            field.as_str(),
        ),
        SchemaError::InvalidTimestamp => "the Fact object has an invalid timestamp".to_owned(),
        SchemaError::MissingBodyField(field) => concat(
            "the Fact object body is missing a required field: ",
            field.as_str(),
        ),
        SchemaError::InvalidBody(field) => concat(
            "the Fact object body has an invalid field: ",
            field.as_str(),
        ),
        SchemaError::UnknownBodyField(field) => concat(
            "the Fact object body has an unknown field: ",
            field.as_str(),
        ),
    }
}

/// The message for a signing or envelope failure.
pub fn crypto_error_message(error: &CryptoError) -> (m: String)
    ensures
        m@ == crypto_message(*error),
{
    match error {
        CryptoError::Seed =>
            "the signing seed is invalid; it must decode to exactly 32 bytes".to_owned(),
        CryptoError::Public => "the public signing key is invalid".to_owned(),
        CryptoError::Signature => "the object signature is invalid".to_owned(),
        CryptoError::MalformedCose =>
            "the signed object envelope is malformed and cannot be read".to_owned(),
        CryptoError::UnsupportedCose =>
            "the signed object envelope uses an unsupported format".to_owned(),
    }
}

/// The message for a search failure.
pub fn search_error_message(error: &SearchError) -> (m: String)
    ensures
        m@ == search_message(*error),
{
    match error {
        SearchError::Grammar => "the search score is not valid".to_owned(),
        SearchError::Scale => "the search score is too precise".to_owned(),
        SearchError::Range => "the search score is outside the allowed range".to_owned(),
        SearchError::Sentinel => "this search profile requires a zero score".to_owned(),
        SearchError::Markdown(m) => markdown_error_message(m),
        SearchError::Sql(text) => concat(
            "Fact could not read or write the local search database: ",
            text.as_str(),
        ),
        SearchError::FtsUnavailable =>
            "the local SQLite build does not support full-text search".to_owned(),
        SearchError::StoredHash =>
            "the local search index contains an invalid object hash; rebuild the index and try again".to_owned(),
        SearchError::InvalidQuery => "the search query object is invalid".to_owned(),
        SearchError::InvalidCursor =>
            "the search cursor is invalid or no longer matches this query".to_owned(),
    }
}

/// The message for a commitment failure.
pub fn commitment_error_message(error: &CommitmentError) -> (m: String)
    ensures
        m@ == commitment_message(*error),
{
    match error {
        CommitmentError::Duplicate =>
            "the object hash list contains the same hash more than once".to_owned(),
        CommitmentError::Index => "the proof index is outside the hash list".to_owned(),
        CommitmentError::InvalidProof =>
            "the commitment proof does not match the supplied hashes".to_owned(),
        CommitmentError::Present =>
            "that object hash is already present in the commitment".to_owned(),
    }
}

/// The message for a malformed hash, ID or timestamp.
pub fn core_error_message(error: &CoreError) -> (m: String)
    ensures
        m@ == core_message(*error),
{
    match error {
        CoreError::InvalidHash =>
            "object hashes must be 64 lowercase hexadecimal characters".to_owned(),
        CoreError::InvalidUuid(value) => concat("that ID is not a valid UUID: ", value.as_str()),
        CoreError::InvalidTimestamp(value) => concat(
            "that timestamp is not valid: ",
            value.as_str(),
        ),
    }
}

/// The message for a failure of the local ledger store.
pub fn store_error_message(error: &StoreError) -> (m: String)
    ensures
        m@ == store_message(*error),
{
    match error {
        StoreError::Canonical(c) => canonical_json_error_message(c),
        StoreError::Sql(text) => concat(
            "Fact could not read or write the local ledger database: ",
            text.as_str(),
        ),
        StoreError::Duplicate => "that object already exists in the ledger".to_owned(),
        StoreError::PayloadMismatch =>
            "the signed object payload does not match its canonical payload".to_owned(),
        StoreError::HashMismatch =>
            "the object content hash does not match the stored object".to_owned(),
        StoreError::InvalidUuid(field) => concat(
            "the object contains an invalid UUID field: ",
            field.as_str(),
        ),
        StoreError::InvalidNamespace => "the ledger namespace is invalid".to_owned(),
        StoreError::Schema(e) => schema_error_message(e),
        StoreError::Cose(e) => crypto_error_message(e),
        StoreError::Metadata => "the object contains invalid JSON metadata".to_owned(),
        StoreError::MissingKey =>
            "the signing key for this object is not available in the ledger".to_owned(),
        StoreError::InvalidSignature => "the object signature is invalid".to_owned(),
        StoreError::MissingDependency =>
            "this object depends on ledger data that is not available locally; pull or import the missing data and try again".to_owned(),
        StoreError::DependencyHashMismatch =>
            "a dependency hash does not match the stored dependency object".to_owned(),
        StoreError::InvalidDependency =>
            "the object contains an invalid dependency record".to_owned(),
        StoreError::MissingLedger =>
            "the object belongs to a ledger that is not available locally".to_owned(),
        StoreError::ProjectedMismatch =>
            "the local projected does not match the canonical object".to_owned(),
        StoreError::StateProjected =>
            "the local ledger state projected is invalid; rebuild the local state and try again".to_owned(),
        StoreError::InvalidPublicKey => "the public key in this object is invalid".to_owned(),
        StoreError::Unauthorized =>
            "your current identity does not have permission to do that in this ledger".to_owned(),
        StoreError::TimeUncertain =>
            "Fact could not tell whether the required permission was valid at that time".to_owned(),
        StoreError::InvalidLineage =>
            "that change does not fit the proposition's current history; choose the specific revision you meant and try again".to_owned(),
        StoreError::PolicyRejected => "the local ledger policy rejected that object".to_owned(),
        StoreError::SearchIndex(message) => concat(
            "Fact could not read the local search index: ",
            message.as_str(),
        ),
        StoreError::IndexedPropositionStale =>
            "the local proposition read index is stale; run `fact state rebuild` and try again".to_owned(),
    }
}

/// The message for a failure of a ledger operation.
pub fn sdk_error_message(error: &SdkError) -> (m: String)
    ensures
        m@ == sdk_message(*error),
{
    match error {
        SdkError::Validation(message) => message.clone(),
        SdkError::Schema(e) => schema_error_message(e),
        SdkError::Canonical(e) => canonical_json_error_message(e),
        SdkError::Markdown(e) => markdown_error_message(e),
        SdkError::Crypto(e) => crypto_error_message(e),
        SdkError::Store(e) => store_error_message(e),
        SdkError::Search(e) => search_error_message(e),
        SdkError::Sync(message) => message.clone(),
        SdkError::Commitment(e) => commitment_error_message(e),
        SdkError::Authorization(message) => message.clone(),
        SdkError::ReadOnlyLedger =>
            "this ledger is read-only; use a local ledger where your identity has permission".to_owned(),
        SdkError::MissingObject(message) => concat(
            "Fact could not find that object: ",
            message.as_str(),
        ),
        SdkError::AmbiguousReference(reference) => {
            let head = concat("that reference is ambiguous: ", reference.as_str());
            concat(
                head.as_str(),
                ". Use a full proposition or revision ID, or choose --pending/--latest when the command supports it",
            )
        },
        SdkError::NotImplemented(feature) => concat(
            "this command is not implemented yet: ",
            feature.as_str(),
        ),
        SdkError::Conflict(message) => message.clone(),
        SdkError::Projected(message) => concat(
            "Fact could not read the local ledger state: ",
            message.as_str(),
        ),
        SdkError::Io { kind, text } => io_error_message(kind, text.as_str()),
        SdkError::TomlDecode(text) => concat(
            "Fact could not read its local configuration: ",
            text.as_str(),
        ),
        SdkError::TomlEncode(text) => concat(
            "Fact could not write its local configuration: ",
            text.as_str(),
        ),
        SdkError::Json(text) => concat("Fact could not read JSON input: ", text.as_str()),
        SdkError::Hex(text) => concat("expected lowercase hexadecimal bytes: ", text.as_str()),
        SdkError::Uuid(text) => concat("that ID is not a valid UUID: ", text.as_str()),
        SdkError::Message(message) => message.clone(),
    }
}

/// The sentence `fact` prints for a failure that ends a command.
pub fn user_facing_error(error: &ReportedError) -> (m: String)
    ensures
        m@ == reported_message(*error),
{
    match error {
        ReportedError::Fact(e) => e.message(),
        ReportedError::Sdk(e) => sdk_error_message(e),
        ReportedError::Store(e) => store_error_message(e),
        ReportedError::Markdown(e) => markdown_error_message(e),
        ReportedError::Canonical(e) => canonical_json_error_message(e),
        ReportedError::Schema(e) => schema_error_message(e),
        ReportedError::Crypto(e) => crypto_error_message(e),
        ReportedError::Search(e) => search_error_message(e),
        ReportedError::Commitment(e) => commitment_error_message(e),
        ReportedError::Core(e) => core_error_message(e),
        ReportedError::Other(text) => text.clone(),
    }
}

} // verus!
