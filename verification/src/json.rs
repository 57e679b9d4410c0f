//! A plain model of JSON documents. Parsing and pretty printing are done by
//! `serde_json`; everything the crate reads out of a document is verified
//! against the model.

use vstd::prelude::*;
use crate::errors::{FactError, Failure};
use crate::text::str_eq;

verus! {

/// A JSON document. Object members keep the order in which they were read.
#[derive(Debug)]
pub enum Json {
    Null,
    Bool(bool),
    /// A number, kept as the text `serde_json` prints for it.
    Number(String),
    Str(String),
    Array(Vec<Json>),
    Object(Vec<(String, Json)>),
}

/// The mathematical value of a [`Json`] document.
pub enum JsonValue {
    Null,
    Bool(bool),
    Number(Seq<char>),
    Str(Seq<char>),
    Array(Seq<JsonValue>),
    Object(Seq<(Seq<char>, JsonValue)>),
}

impl Json {
    pub open spec fn value(self) -> JsonValue
        decreases self,
        via Self::value_decreases
    {
        match self {
            Json::Null => JsonValue::Null,
            Json::Bool(b) => JsonValue::Bool(b),
            Json::Number(n) => JsonValue::Number(n@),
            Json::Str(s) => JsonValue::Str(s@),
            Json::Array(items) => JsonValue::Array(
                Seq::new(
                    items@.len(),
                    |i: int|
                        if 0 <= i < items@.len() {
                            items@[i].value()
                        } else {
                            JsonValue::Null
                        },
                ),
            ),
            Json::Object(members) => JsonValue::Object(
                Seq::new(
                    members@.len(),
                    |i: int|
                        if 0 <= i < members@.len() {
                            (members@[i].0@, members@[i].1.value())
                        } else {
                            (Seq::empty(), JsonValue::Null)
                        },
                ),
            ),
        }
    }

    #[via_fn]
    proof fn value_decreases(self) {
        match self {
            Json::Array(items) => {
                assert forall|i: int| 0 <= i < items@.len() implies decreases_to!(self => items@[i]) by {
                    assert(decreases_to!(self => items));
                    assert(decreases_to!(items => items@));
                    assert(decreases_to!(items@ => items@[i]));
                }
            },
            Json::Object(members) => {
                assert forall|i: int| 0 <= i < members@.len() implies decreases_to!(self => members@[i].1) by {
                    assert(decreases_to!(self => members));
                    assert(decreases_to!(members => members@));
                    assert(decreases_to!(members@ => members@[i]));
                    assert(decreases_to!(members@[i] => members@[i].1));
                }
            },
            _ => {},
        }
    }
}

impl View for Json {
    type V = JsonValue;

    open spec fn view(&self) -> JsonValue {
        self.value()
    }
}

#[verifier::external_type_specification]
#[verifier::external_body]
pub struct ExSerdeJsonValue(serde_json::Value);

/// What `serde_json::from_str::<serde_json::Value>` makes of a text: the
/// document, or the text of its error.
pub uninterp spec fn json_text_parse(text: Seq<char>) -> Result<JsonValue, Seq<char>>;

/// What `serde_json::from_slice::<serde_json::Value>` makes of bytes: the
/// document, or the text of its error.
pub uninterp spec fn json_bytes_parse(bytes: Seq<u8>) -> Result<JsonValue, Seq<char>>;

/// What `serde_json::to_string_pretty` prints for a document, or the text of
/// its error.
pub uninterp spec fn json_pretty_text(value: JsonValue) -> Result<Seq<char>, Seq<char>>;

/// Moves a `serde_json::Value` into the model, variant for variant.
#[verifier::external_body]
fn from_serde(value: serde_json::Value) -> Json {
    match value {
        serde_json::Value::Null => Json::Null,
        serde_json::Value::Bool(b) => Json::Bool(b),
        serde_json::Value::Number(n) => Json::Number(n.to_string()),
        serde_json::Value::String(s) => Json::Str(s),
        serde_json::Value::Array(items) => Json::Array(items.into_iter().map(from_serde).collect()),
        serde_json::Value::Object(map) => Json::Object(
            map.into_iter().map(|(k, v)| (k, from_serde(v))).collect(),
        ),
    }
}

/// Moves a document of the model into a `serde_json::Value`, variant for variant.
#[verifier::external_body]
fn to_serde(value: &Json) -> serde_json::Value {
    match value {
        Json::Null => serde_json::Value::Null,
        Json::Bool(b) => serde_json::Value::Bool(*b),
        Json::Number(n) => n.parse().map(serde_json::Value::Number).unwrap_or(serde_json::Value::Null),
        Json::Str(s) => serde_json::Value::String(s.clone()),
        Json::Array(items) => serde_json::Value::Array(items.iter().map(to_serde).collect()),
        Json::Object(members) => serde_json::Value::Object(
            members.iter().map(|(k, v)| (k.clone(), to_serde(v))).collect(),
        ),
    }
}

/// The members of an object, each as its key and the view of its value.
pub open spec fn member_views(v: Seq<(String, Json)>) -> Seq<(Seq<char>, JsonValue)> {
    Seq::new(v.len(), |i: int| (v[i].0@, v[i].1@))
}

/// An object made of members is viewed member for member.
pub proof fn lemma_object_view(members: Vec<(String, Json)>)
    ensures
        Json::Object(members)@ == JsonValue::Object(member_views(members@)),
{
    let inner = match Json::Object(members)@ {
        JsonValue::Object(x) => x,
        _ => Seq::empty(),
    };
    assert(inner =~= member_views(members@));
}

/// The views of the elements of an array.
pub open spec fn item_views(v: Seq<Json>) -> Seq<JsonValue> {
    Seq::new(v.len(), |i: int| v[i]@)
}

/// An array made of elements is viewed element for element.
pub proof fn lemma_array_view(items: Vec<Json>)
    ensures
        Json::Array(items)@ == JsonValue::Array(item_views(items@)),
{
    let inner = match Json::Array(items)@ {
        JsonValue::Array(x) => x,
        _ => Seq::empty(),
    };
    assert(inner =~= item_views(items@));
}

/// Parses JSON text with `serde_json::from_str`; the result is named by
/// [`json_text_parse`], nothing more is claimed of it.
#[verifier::external_body]
pub(crate) fn parse_json_text(text: &str) -> (res: Result<Json, String>)
    ensures
        match res {
            Ok(v) => json_text_parse(text@) == Ok::<JsonValue, Seq<char>>(v@),
            Err(e) => json_text_parse(text@) == Err::<JsonValue, Seq<char>>(e@),
        },
{
    match serde_json::from_str::<serde_json::Value>(text) {
        Ok(value) => Ok(from_serde(value)),
        Err(error) => Err(error.to_string()),
    }
}

/// Parses JSON bytes with `serde_json::from_slice`; the result is named by
/// [`json_bytes_parse`], nothing more is claimed of it.
#[verifier::external_body]
pub(crate) fn parse_json_bytes(bytes: &[u8]) -> (res: Result<Json, String>)
    ensures
        match res {
            Ok(v) => json_bytes_parse(bytes@) == Ok::<JsonValue, Seq<char>>(v@),
            Err(e) => json_bytes_parse(bytes@) == Err::<JsonValue, Seq<char>>(e@),
        },
{
    match serde_json::from_slice::<serde_json::Value>(bytes) {
        Ok(value) => Ok(from_serde(value)),
        Err(error) => Err(error.to_string()),
    }
}

/// Prints a document with `serde_json::to_string_pretty`; the result is named
/// by [`json_pretty_text`], nothing more is claimed of it.
#[verifier::external_body]
pub(crate) fn pretty_json(value: &Json) -> (res: Result<String, String>)
    ensures
        match res {
            Ok(t) => json_pretty_text(value@) == Ok::<Seq<char>, Seq<char>>(t@),
            Err(e) => json_pretty_text(value@) == Err::<Seq<char>, Seq<char>>(e@),
        },
{
    serde_json::to_string_pretty(&to_serde(value)).map_err(|error| error.to_string())
}

/// A document as the pretty-printed JSON text `fact --json` prints.
pub fn json_document_text(value: &Json) -> (r: Result<String, FactError>)
    ensures
        match r {
            Ok(t) => json_pretty_text(value@) == Ok::<Seq<char>, Seq<char>>(t@),
            Err(e) => exists|m: Seq<char>|
                json_pretty_text(value@) == Err::<Seq<char>, Seq<char>>(m) && e@ == Failure::Json(m),
        },
{
    match pretty_json(value) {
        Ok(t) => Ok(t),
        Err(m) => Err(FactError::Json(m)),
    }
}

/// What the `Display` of `serde_json::Value` writes for a document: its
/// compact JSON text.
pub uninterp spec fn json_compact_text(value: JsonValue) -> Seq<char>;

/// Writes a document as compact JSON with `serde_json::Value::to_string`;
/// the result is named by [`json_compact_text`], nothing more is claimed of
/// it.
#[verifier::external_body]
pub(crate) fn compact_json(value: &Json) -> (t: String)
    ensures
        t@ == json_compact_text(value@),
{
    to_serde(value).to_string()
}

/// The elements of an array document.
pub open spec fn array_items(v: JsonValue) -> Seq<JsonValue> {
    match v {
        JsonValue::Array(items) => items,
        _ => Seq::empty(),
    }
}

/// The members of an object document.
pub open spec fn object_members(v: JsonValue) -> Seq<(Seq<char>, JsonValue)> {
    match v {
        JsonValue::Object(members) => members,
        _ => Seq::empty(),
    }
}

pub proof fn lemma_array_value(v: &Json, items: &Vec<Json>)
    requires
        *v == Json::Array(*items),
    ensures
        v@ == JsonValue::Array(array_items(v@)),
        array_items(v@).len() == items@.len(),
        forall|k: int| 0 <= k < items@.len() ==> #[trigger] array_items(v@)[k] == items@[k]@,
{
}

pub proof fn lemma_object_value(v: &Json, members: &Vec<(String, Json)>)
    requires
        *v == Json::Object(*members),
    ensures
        v@ == JsonValue::Object(object_members(v@)),
        object_members(v@).len() == members@.len(),
        forall|k: int|
            0 <= k < members@.len() ==> #[trigger] object_members(v@)[k] == (
                members@[k].0@,
                members@[k].1@,
            ),
{
}

/// The value of the first member named `key`, when `v` is an object:
/// `serde_json::Value::get` with a string key.
pub open spec fn member_of(members: Seq<(Seq<char>, JsonValue)>, key: Seq<char>) -> Option<
    JsonValue,
>
    decreases members.len(),
{
    if members.len() == 0 {
        None
    } else if members[0].0 == key {
        Some(members[0].1)
    } else {
        member_of(members.drop_first(), key)
    }
}

pub open spec fn member(v: JsonValue, key: Seq<char>) -> Option<JsonValue> {
    match v {
        JsonValue::Object(members) => member_of(members, key),
        _ => None,
    }
}

/// `serde_json::Value::as_str`.
pub open spec fn str_of(v: JsonValue) -> Option<Seq<char>> {
    match v {
        JsonValue::Str(s) => Some(s),
        _ => None,
    }
}

/// The string member `key` of `v`: `v.get(key).and_then(Value::as_str)`.
pub open spec fn str_member(v: JsonValue, key: Seq<char>) -> Option<Seq<char>> {
    match member(v, key) {
        Some(m) => str_of(m),
        None => None,
    }
}

/// The member `key` of an object document.
pub fn get<'a>(v: &'a Json, key: &str) -> (r: Option<&'a Json>)
    ensures
        match r {
            Some(m) => member(v@, key@) == Some(m@),
            None => member(v@, key@) is None,
        },
{
    match v {
        Json::Object(members) => {
            let ghost ms = match v@ {
                JsonValue::Object(ms) => ms,
                _ => Seq::empty(),
            };
            assert(ms.len() == members@.len());
            assert(forall|j: int|
                0 <= j < ms.len() ==> #[trigger] ms[j] == (members@[j].0@, members@[j].1@));
            let mut i: usize = 0;
            assert(ms.skip(0) =~= ms);
            while i < members.len()
                invariant
                    i <= members@.len(),
                    ms.len() == members@.len(),
                    forall|j: int|
                        0 <= j < ms.len() ==> #[trigger] ms[j] == (members@[j].0@, members@[j].1@),
                    member(v@, key@) == member_of(ms.skip(i as int), key@),
                decreases members@.len() - i,
            {
                assert(ms.skip(i as int).drop_first() =~= ms.skip(i + 1));
                assert(ms.skip(i as int)[0] == ms[i as int]);
                if str_eq(members[i].0.as_str(), key) {
                    return Some(&members[i].1);
                }
                i = i + 1;
            }
            None
        },
        _ => None,
    }
}

/// The text of a string document.
pub fn as_str(v: &Json) -> (r: Option<&String>)
    ensures
        match r {
            Some(s) => str_of(v@) == Some(s@),
            None => str_of(v@) is None,
        },
{
    match v {
        Json::Str(s) => Some(s),
        _ => None,
    }
}

/// The string member `key` of a document, copied out.
pub fn get_str(v: &Json, key: &str) -> (r: Option<String>)
    ensures
        match r {
            Some(s) => str_member(v@, key@) == Some(s@),
            None => str_member(v@, key@) is None,
        },
{
    match get(v, key) {
        Some(m) => match as_str(m) {
            Some(s) => Some(s.clone()),
            None => None,
        },
        None => None,
    }
}

} // verus!
