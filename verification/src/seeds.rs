//! Signing seeds given as hexadecimal text: decoded with the `hex` crate,
//! and required to be 32 bytes.

use vstd::prelude::*;
use crate::errors::{FactError, Failure};
use crate::text::{str_eq, trim, trim_text};
use vstd::utf8::encode_utf8;

verus! {

/// The value of a hexadecimal digit byte, either case.
pub open spec fn hex_digit_value(b: u8) -> Option<u8> {
    if 48 <= b <= 57 {
        Some((b - 48) as u8)
    } else if 97 <= b <= 102 {
        Some((b - 87) as u8)
    } else if 65 <= b <= 70 {
        Some((b - 55) as u8)
    } else {
        None
    }
}

/// What `hex::decode` makes of text: an even number of hexadecimal digits
/// (either case) decodes to one byte per pair, high digit first; anything
/// else is refused.
pub open spec fn hex_decoded(text: Seq<u8>) -> Option<Seq<u8>> {
    if text.len() % 2 == 0 && forall|i: int| 0 <= i < text.len() ==> #[trigger] hex_digit_value(
        text[i],
    ) is Some {
        Some(
            Seq::new(
                text.len() / 2,
                |k: int|
                    (hex_digit_value(text[2 * k])->Some_0 * 16 + hex_digit_value(
                        text[2 * k + 1],
                    )->Some_0) as u8,
            ),
        )
    } else {
        None
    }
}

/// The text of the `hex::FromHexError` that `hex::decode` returns for text
/// it refuses.
pub uninterp spec fn hex_error_text(text: Seq<u8>) -> Seq<char>;

/// `hex::decode`: the bytes the text spells, or the text of its error.
#[verifier::external_body]
fn hex_decode(text: &str) -> (r: Result<Vec<u8>, String>)
    ensures
        match r {
            Ok(b) => hex_decoded(encode_utf8(text@)) == Some(b@),
            Err(e) => hex_decoded(encode_utf8(text@)) is None && e@ == hex_error_text(
                encode_utf8(text@),
            ),
        },
{
    hex::decode(text).map_err(|error| error.to_string())
}

/// What a 32-byte seed given as hexadecimal decodes to: the error of the
/// decoding, the seed, or `wrong_length` when it is not 32 bytes.
pub open spec fn seed_spec(text: Seq<char>, decode_failure: spec_fn(Seq<char>) -> Failure, wrong_length: Seq<char>) -> Result<
    Seq<u8>,
    Failure,
> {
    match hex_decoded(encode_utf8(text)) {
        None => Err(decode_failure(hex_error_text(encode_utf8(text)))),
        Some(b) => if b.len() == 32 {
            Ok(b)
        } else {
            Err(Failure::User(wrong_length))
        },
    }
}

pub open spec fn hex_failure() -> spec_fn(Seq<char>) -> Failure {
    |e: Seq<char>| Failure::Hex(e)
}

pub open spec fn user_failure() -> spec_fn(Seq<char>) -> Failure {
    |e: Seq<char>| Failure::User(e)
}

pub open spec fn seed_outcome(r: Result<Vec<u8>, FactError>) -> Result<Seq<u8>, Failure> {
    match r {
        Ok(b) => Ok(b@),
        Err(e) => Err(e@),
    }
}

/// The identity seed of the technical commands (`--seed HEX`): a failed
/// decoding is reported as hexadecimal input to fix.
pub fn identity_seed(text: &str) -> (r: Result<Vec<u8>, FactError>)
    ensures
        seed_outcome(r) == seed_spec(text@, hex_failure(), "identity seed must be 32 bytes"@),
{
    match hex_decode(text) {
        Err(e) => Err(FactError::Hex(e)),
        Ok(b) => if b.len() == 32 {
            Ok(b)
        } else {
            Err(FactError::User("identity seed must be 32 bytes".to_owned()))
        },
    }
}

/// The identity seed kept in a seed file: its text trimmed, then decoded.
pub fn seed_file_seed(contents: &str) -> (r: Result<Vec<u8>, FactError>)
    ensures
        seed_outcome(r) == seed_spec(trim(contents@), hex_failure(), "identity seed must be 32 bytes"@),
{
    let trimmed = trim_text(contents);
    identity_seed(trimmed.as_str())
}

/// The signing seed of `fact ledger init --seed`: a failed decoding is
/// reported with the decoder's own words.
pub fn ledger_init_seed(seed: Option<&str>) -> (r: Result<Option<Vec<u8>>, FactError>)
    ensures
        match seed {
            None => r is Ok && r->Ok_0 is None,
            Some(t) => match r {
                Ok(Some(b)) => seed_spec(t@, user_failure(), "--seed must decode to exactly 32 bytes"@)
                    == Ok::<Seq<u8>, Failure>(b@),
                Ok(None) => false,
                Err(e) => seed_spec(t@, user_failure(), "--seed must decode to exactly 32 bytes"@)
                    == Err::<Seq<u8>, Failure>(e@),
            },
        },
{
    match seed {
        None => Ok(None),
        Some(t) => match hex_decode(t) {
            Err(e) => Err(FactError::User(e)),
            Ok(b) => if b.len() == 32 {
                Ok(Some(b))
            } else {
                Err(FactError::User("--seed must decode to exactly 32 bytes".to_owned()))
            },
        },
    }
}

/// The outcome named by a technical decision: `accepted` or `rejected`.
pub fn check_decision_value(value: &str) -> (r: Result<(), FactError>)
    ensures
        match r {
            Ok(()) => value@ == "accepted"@ || value@ == "rejected"@,
            Err(e) => value@ != "accepted"@ && value@ != "rejected"@ && e@ == Failure::User(
                "decision value must be accepted or rejected"@,
            ),
        },
{
    if str_eq(value, "accepted") || str_eq(value, "rejected") {
        Ok(())
    } else {
        Err(FactError::User("decision value must be accepted or rejected".to_owned()))
    }
}

} // verus!
