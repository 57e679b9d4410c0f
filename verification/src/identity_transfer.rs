//! The file `fact identity export` writes and `fact identity import` reads:
//! a bare identity bundle, or, when directory entries travel with it, a JSON
//! envelope that carries both bundles as base64url text.

use vstd::prelude::*;
use vstd::utf8::*;
use crate::base64url::{decode_base64url, decode_spec, encode_base64url, encode_spec, law_decode_encode_roundtrip};
use crate::book::opt_view;
use crate::errors::{FactError, Failure};
use crate::json::{Json, JsonValue, json_pretty_text, pretty_json};
use crate::text::{is_ascii_whitespace_byte, str_eq, text_bytes};

verus! {

/// The schema an identity export envelope names.
pub open spec fn identity_export_schema() -> Seq<char> {
    "fact-identity-bundle-v0"@
}

/// An identity export envelope, field for field.
pub struct IdentityExportEnvelope {
    pub schema: String,
    /// The identity bundle, base64url encoded.
    pub identity_bundle: String,
    /// The directory bundle, base64url encoded, when there is one.
    pub directory_bundle: Option<String>,
}

/// The bundles an identity import brings in.
pub struct IdentityImportBundle {
    pub identity_bundle: Vec<u8>,
    pub directory_bundle: Option<Vec<u8>>,
}

pub open spec fn opt_bytes(o: Option<Vec<u8>>) -> Option<Seq<u8>> {
    match o {
        Some(b) => Some(b@),
        None => None,
    }
}

/// The envelope that carries an identity bundle and a directory bundle.
pub open spec fn envelope_spec(identity: Seq<u8>, directory: Seq<u8>) -> (
    Seq<char>,
    Seq<char>,
    Option<Seq<char>>,
) {
    (identity_export_schema(), encode_spec(identity), Some(encode_spec(directory)))
}

/// The bundles read out of an envelope: its schema must be the identity
/// export schema, and each bundle valid base64url (whitespace skipped).
pub open spec fn import_spec(schema: Seq<char>, identity: Seq<char>, directory: Option<Seq<char>>) -> Result<
    (Seq<u8>, Option<Seq<u8>>),
    Failure,
> {
    if schema != identity_export_schema() {
        Err(Failure::User("identity import expected an identity bundle"@))
    } else {
        match decode_spec(encode_utf8(identity), true) {
            None => Err(Failure::User("identity_bundle contains invalid base64url"@)),
            Some(i) => match directory {
                None => Ok((i, None)),
                Some(d) => match decode_spec(encode_utf8(d), true) {
                    None => Err(Failure::User("directory_bundle contains invalid base64url"@)),
                    Some(dd) => Ok((i, Some(dd))),
                },
            },
        }
    }
}

/// The envelope for an identity bundle and a directory bundle.
pub fn identity_export_envelope(identity_bundle: &[u8], directory_bundle: &[u8]) -> (e:
    IdentityExportEnvelope)
    ensures
        (e.schema@, e.identity_bundle@, opt_view(e.directory_bundle)) == envelope_spec(
            identity_bundle@,
            directory_bundle@,
        ),
{
    IdentityExportEnvelope {
        schema: "fact-identity-bundle-v0".to_owned(),
        identity_bundle: encode_base64url(identity_bundle),
        directory_bundle: Some(encode_base64url(directory_bundle)),
    }
}

/// The envelope as a JSON document: `schema`, `identity_bundle` and
/// `directory_bundle`, in that order.
pub open spec fn envelope_json_spec(identity: Seq<u8>, directory: Seq<u8>) -> JsonValue {
    JsonValue::Object(
        seq![
            ("schema"@, JsonValue::Str(identity_export_schema())),
            ("identity_bundle"@, JsonValue::Str(encode_spec(identity))),
            ("directory_bundle"@, JsonValue::Str(encode_spec(directory))),
        ],
    )
}

/// What an identity export writes: the identity bundle as it is when no
/// directory entries go with it, else the envelope as pretty-printed JSON.
pub open spec fn export_file_spec(identity: Seq<u8>, directory: Option<Seq<u8>>) -> Result<
    Seq<u8>,
    Failure,
> {
    match directory {
        None => Ok(identity),
        Some(d) => match json_pretty_text(envelope_json_spec(identity, d)) {
            Ok(t) => Ok(encode_utf8(t)),
            Err(e) => Err(Failure::Json(e)),
        },
    }
}

/// The bytes of an identity export file.
pub fn identity_export_file(identity_bundle: &[u8], directory_bundle: Option<&[u8]>) -> (r: Result<
    Vec<u8>,
    FactError,
>)
    ensures
        match r {
            Ok(b) => export_file_spec(identity_bundle@, opt_slice(directory_bundle)) == Ok::<
                Seq<u8>,
                Failure,
            >(b@),
            Err(e) => export_file_spec(identity_bundle@, opt_slice(directory_bundle)) == Err::<
                Seq<u8>,
                Failure,
            >(e@),
        },
{
    match directory_bundle {
        None => Ok(vstd::slice::slice_to_vec(identity_bundle)),
        Some(d) => {
            let envelope = identity_export_envelope(identity_bundle, d);
            let directory_text = match envelope.directory_bundle {
                Some(t) => t,
                None => String::new(),
            };
            let schema = Json::Str(envelope.schema);
            let identity = Json::Str(envelope.identity_bundle);
            let directory = Json::Str(directory_text);
            assert(schema@ == JsonValue::Str(identity_export_schema()));
            assert(identity@ == JsonValue::Str(encode_spec(identity_bundle@)));
            assert(directory@ == JsonValue::Str(encode_spec(d@)));
            let members = vec![
                ("schema".to_owned(), schema),
                ("identity_bundle".to_owned(), identity),
                ("directory_bundle".to_owned(), directory),
            ];
            let doc = Json::Object(members);
            proof {
                let inner = match doc@ {
                    JsonValue::Object(s) => s,
                    _ => Seq::empty(),
                };
                let expected = match envelope_json_spec(identity_bundle@, d@) {
                    JsonValue::Object(s) => s,
                    _ => Seq::empty(),
                };
                assert(inner =~= expected);
            }
            match pretty_json(&doc) {
                Ok(t) => Ok(text_bytes(t.as_str())),
                Err(e) => Err(FactError::Json(e)),
            }
        },
    }
}

pub open spec fn opt_slice(o: Option<&[u8]>) -> Option<Seq<u8>> {
    match o {
        Some(b) => Some(b@),
        None => None,
    }
}

/// An import file is an envelope when its first byte that is not ASCII
/// whitespace is `{`; otherwise it is a bare identity bundle.
pub open spec fn import_is_envelope(bytes: Seq<u8>) -> bool {
    exists|i: int|
        0 <= i < bytes.len() && bytes[i] == 0x7b && forall|k: int|
            0 <= k < i ==> is_ascii_whitespace_byte(#[trigger] bytes[k])
}

/// Whether an import file holds an envelope rather than a bare bundle.
pub fn identity_import_is_envelope(bytes: &[u8]) -> (r: bool)
    ensures
        r == import_is_envelope(bytes@),
{
    let mut i: usize = 0;
    while i < bytes.len()
        invariant
            i <= bytes@.len(),
            forall|k: int| 0 <= k < i ==> is_ascii_whitespace_byte(#[trigger] bytes@[k]),
        decreases bytes@.len() - i,
    {
        let b = bytes[i];
        if !(b == 0x20 || b == 0x09 || b == 0x0a || b == 0x0c || b == 0x0d) {
            proof {
                if !(b == 0x7b) {
                    assert forall|j: int|
                        !(0 <= j < bytes@.len() && bytes@[j] == 0x7b && forall|k: int|
                            0 <= k < j ==> is_ascii_whitespace_byte(#[trigger] bytes@[k])) by {
                        if 0 <= j < bytes@.len() && bytes@[j] == 0x7b && j > i {
                            assert(!is_ascii_whitespace_byte(bytes@[i as int]));
                        }
                    }
                }
            }
            return b == 0x7b;
        }
        i = i + 1;
    }
    proof {
        assert forall|j: int|
            !(0 <= j < bytes@.len() && bytes@[j] == 0x7b && forall|k: int|
                0 <= k < j ==> is_ascii_whitespace_byte(#[trigger] bytes@[k])) by {
            if 0 <= j < bytes@.len() && bytes@[j] == 0x7b {
                assert(is_ascii_whitespace_byte(bytes@[j]));
            }
        }
    }
    false
}

/// The bundles an import envelope carries.
pub fn identity_import_bundle_from_envelope(envelope: &IdentityExportEnvelope) -> (r: Result<
    IdentityImportBundle,
    FactError,
>)
    ensures
        match r {
            Ok(b) => import_spec(
                envelope.schema@,
                envelope.identity_bundle@,
                opt_view(envelope.directory_bundle),
            ) == Ok::<(Seq<u8>, Option<Seq<u8>>), Failure>(
                (b.identity_bundle@, opt_bytes(b.directory_bundle)),
            ),
            Err(e) => import_spec(
                envelope.schema@,
                envelope.identity_bundle@,
                opt_view(envelope.directory_bundle),
            ) == Err::<(Seq<u8>, Option<Seq<u8>>), Failure>(e@),
        },
{
    if !str_eq(envelope.schema.as_str(), "fact-identity-bundle-v0") {
        return Err(FactError::User("identity import expected an identity bundle".to_owned()));
    }
    let identity_bundle = match decode_base64url(envelope.identity_bundle.as_str()) {
        Some(b) => b,
        None => {
            return Err(
                FactError::User("identity_bundle contains invalid base64url".to_owned()),
            );
        },
    };
    let directory_bundle = match &envelope.directory_bundle {
        None => None,
        Some(d) => match decode_base64url(d.as_str()) {
            Some(b) => Some(b),
            None => {
                return Err(
                    FactError::User("directory_bundle contains invalid base64url".to_owned()),
                );
            },
        },
    };
    Ok(IdentityImportBundle { identity_bundle, directory_bundle })
}

/// An identity export's envelope reads back, on import, as the identity
/// bundle and the directory bundle that were exported.
pub proof fn law_identity_export_reads_back(identity: Seq<u8>, directory: Seq<u8>)
    ensures
        ({
            let (schema, i, d) = envelope_spec(identity, directory);
            import_spec(schema, i, d) == Ok::<(Seq<u8>, Option<Seq<u8>>), Failure>(
                (identity, Some(directory)),
            )
        }),
{
    law_decode_encode_roundtrip(identity, true);
    law_decode_encode_roundtrip(directory, true);
}

} // verus!
