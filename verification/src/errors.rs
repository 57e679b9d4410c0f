//! Failures of CLI operations and the text shown to the user for each.

use vstd::prelude::*;
use crate::text::{concat, texts};

verus! {

/// The kind of an I/O failure, as far as the message depends on it.
#[derive(Clone, Copy, Debug, PartialEq, Eq)]
pub enum IoKind {
    NotFound,
    PermissionDenied,
    AlreadyExists,
    Other,
}

/// A failure, classified by where it came from.
#[derive(Debug)]
pub enum FactError {
    /// A message written for the user as it stands.
    User(String),
    /// A JSON document could not be read (the `serde_json` error text).
    Json(String),
    /// An ID is not a UUID (the `uuid` error text).
    Uuid(String),
    /// Bytes were not lowercase hexadecimal (the `hex` error text).
    Hex(String),
    /// The local configuration could not be read (the `toml` error text).
    TomlDecode(String),
    /// The local configuration could not be written (the `toml` error text).
    TomlEncode(String),
    /// A file operation failed.
    Io { kind: IoKind, text: String },
    /// A request to a remote ledger failed.
    Remote { timeout: bool, connect: bool, decode: bool, text: String },
}

/// The message `fact` prints for an I/O failure.
pub open spec fn io_message(kind: IoKind, text: Seq<char>) -> Seq<char> {
    match kind {
        IoKind::NotFound => "file or directory not found: "@ + text,
        IoKind::PermissionDenied => "permission denied while reading or writing a file: "@ + text,
        IoKind::AlreadyExists => "file already exists: "@ + text,
        IoKind::Other => "I/O failed: "@ + text,
    }
}

/// The message `fact` prints for a failed remote request.
pub open spec fn remote_message(timeout: bool, connect: bool, decode: bool, text: Seq<char>) -> Seq<
    char,
> {
    if timeout {
        "the remote ledger did not respond before the request timed out: "@ + text
    } else if connect {
        "Fact could not connect to the remote ledger: "@ + text
    } else if decode {
        "Fact could not read the remote ledger response: "@ + text
    } else {
        "remote ledger request failed: "@ + text
    }
}

impl FactError {
    /// The message `fact` prints for this failure.
    pub open spec fn message_spec(self) -> Seq<char> {
        match self {
            FactError::User(m) => m@,
            FactError::Json(e) => "Fact could not read JSON input: "@ + e@,
            FactError::Uuid(e) => "that ID is not a valid UUID: "@ + e@,
            FactError::Hex(e) => "expected lowercase hexadecimal bytes: "@ + e@,
            FactError::TomlDecode(e) => "Fact could not read its local configuration: "@ + e@,
            FactError::TomlEncode(e) => "Fact could not write its local configuration: "@ + e@,
            FactError::Io { kind, text } => io_message(kind, text@),
            FactError::Remote { timeout, connect, decode, text } => remote_message(
                timeout,
                connect,
                decode,
                text@,
            ),
        }
    }

    /// The message `fact` prints for this failure.
    pub fn message(&self) -> (m: String)
        ensures
            m@ == self.message_spec(),
    {
        match self {
            FactError::User(m) => m.clone(),
            FactError::Json(e) => concat("Fact could not read JSON input: ", e.as_str()),
            FactError::Uuid(e) => concat("that ID is not a valid UUID: ", e.as_str()),
            FactError::Hex(e) => concat("expected lowercase hexadecimal bytes: ", e.as_str()),
            FactError::TomlDecode(e) => concat(
                "Fact could not read its local configuration: ",
                e.as_str(),
            ),
            FactError::TomlEncode(e) => concat(
                "Fact could not write its local configuration: ",
                e.as_str(),
            ),
            FactError::Io { kind, text } => io_error_message(kind, text.as_str()),
            FactError::Remote { timeout, connect, decode, text } => {
                if *timeout {
                    concat(
                        "the remote ledger did not respond before the request timed out: ",
                        text.as_str(),
                    )
                } else if *connect {
                    concat("Fact could not connect to the remote ledger: ", text.as_str())
                } else if *decode {
                    concat("Fact could not read the remote ledger response: ", text.as_str())
                } else {
                    concat("remote ledger request failed: ", text.as_str())
                }
            },
        }
    }
}

/// The message for an I/O failure of the given kind.
pub fn io_error_message(kind: &IoKind, text: &str) -> (m: String)
    ensures
        m@ == io_message(*kind, text@),
{
    match kind {
        IoKind::NotFound => concat("file or directory not found: ", text),
        IoKind::PermissionDenied => concat(
            "permission denied while reading or writing a file: ",
            text,
        ),
        IoKind::AlreadyExists => concat("file already exists: ", text),
        IoKind::Other => concat("I/O failed: ", text),
    }
}

/// A failure whose message is written for the user as it stands.
pub fn user_error(message: String) -> (e: FactError)
    ensures
        e == FactError::User(message),
{
    FactError::User(message)
}

/// The value of a [`FactError`]: its kind and its texts.
pub enum Failure {
    User(Seq<char>),
    Json(Seq<char>),
    Uuid(Seq<char>),
    Hex(Seq<char>),
    TomlDecode(Seq<char>),
    TomlEncode(Seq<char>),
    Io { kind: IoKind, text: Seq<char> },
    Remote { timeout: bool, connect: bool, decode: bool, text: Seq<char> },
}

impl View for FactError {
    type V = Failure;

    open spec fn view(&self) -> Failure {
        match self {
            FactError::User(m) => Failure::User(m@),
            FactError::Json(m) => Failure::Json(m@),
            FactError::Uuid(m) => Failure::Uuid(m@),
            FactError::Hex(m) => Failure::Hex(m@),
            FactError::TomlDecode(m) => Failure::TomlDecode(m@),
            FactError::TomlEncode(m) => Failure::TomlEncode(m@),
            FactError::Io { kind, text } => Failure::Io { kind: *kind, text: text@ },
            FactError::Remote { timeout, connect, decode, text } => Failure::Remote {
                timeout: *timeout,
                connect: *connect,
                decode: *decode,
                text: text@,
            },
        }
    }
}

/// The value of a fallible operation that gives nothing back.
pub open spec fn unit_outcome(r: Result<(), FactError>) -> Result<(), Failure> {
    match r {
        Ok(()) => Ok(()),
        Err(e) => Err(e@),
    }
}

/// The value of a fallible operation that gives a text.
pub open spec fn text_outcome(r: Result<String, FactError>) -> Result<Seq<char>, Failure> {
    match r {
        Ok(s) => Ok(s@),
        Err(e) => Err(e@),
    }
}

/// The value of a fallible operation that gives a list of texts.
pub open spec fn list_outcome(r: Result<Vec<String>, FactError>) -> Result<Seq<Seq<char>>, Failure> {
    match r {
        Ok(v) => Ok(texts(v@)),
        Err(e) => Err(e@),
    }
}

} // verus!
