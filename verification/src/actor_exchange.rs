//! The remote actor exchange: a request artifact in which an actor asks a
//! ledger for access, and the response artifact in which the ledger grants
//! it. Both are pretty-printed JSON, optionally wrapped in BEGIN/END lines,
//! and carry a signed bundle encoded as unpadded base64url.

use vstd::prelude::*;
use vstd::utf8::*;
use crate::base64url::{
    base64url_text, decode_base64url, decode_spec, encode_base64url, encode_spec, law_base64url_text_decodes,
    law_decode_encode_roundtrip, lemma_encoded_text_is_base64url,
};
use crate::ids::{uuid_hyphenated, uuid_text};
use crate::json::{Json, JsonValue, json_pretty_text, pretty_json};
use crate::json::{
    get, get_str, json_bytes_parse, json_text_parse, member, parse_json_bytes, parse_json_text,
    str_member,
};
use crate::records::{
    lemma_request_read_back, lemma_response_read_back, decode_request, decode_response, request_decode_spec, request_result, response_decode_spec,
    response_result,
};
use crate::text::{
    char_len, concat, contains_text, ends_with, texts, has_prefix, has_suffix, push_str, starts_with, str_eq, substring,
    text_bytes, trim, trim_end, trim_start, trim_text, utf8_error_text, utf8_text,
    is_unicode_whitespace,
};

verus! {

pub const REQUEST_SCHEMA: &'static str = "fact-remote-actor-request-v0";

pub const RESPONSE_SCHEMA: &'static str = "fact-remote-actor-response-v0";

pub const REQUEST_BEGIN: &'static str = "-----BEGIN FACT REMOTE ACTOR REQUEST-----";

pub const REQUEST_END: &'static str = "-----END FACT REMOTE ACTOR REQUEST-----";

pub const RESPONSE_BEGIN: &'static str = "-----BEGIN FACT REMOTE ACTOR RESPONSE-----";

pub const RESPONSE_END: &'static str = "-----END FACT REMOTE ACTOR RESPONSE-----";

/// What an actor says about itself.
#[derive(Clone, Debug, PartialEq, Eq)]
pub struct ActorClaims {
    pub display_name: Option<String>,
    pub alias: Option<String>,
    pub actor_type: Option<String>,
}

/// An actor's request for access to a ledger.
#[derive(Clone, Debug, PartialEq, Eq)]
pub struct ActorRequest {
    pub schema: String,
    /// The requesting actor's UUID.
    pub actor: u128,
    pub claims: ActorClaims,
    /// The capabilities asked for.
    pub requests: Vec<String>,
    /// The identity bundle, unpadded base64url.
    pub bundle: String,
}

/// The ledger a response grants access to.
#[derive(Clone, Debug, PartialEq, Eq)]
pub struct ResponseLedger {
    /// The ledger's UUID.
    pub id: u128,
    pub genesis_hash: String,
    pub namespace: String,
}

/// Where the granted ledger can be reached.
#[derive(Clone, Debug, PartialEq, Eq)]
pub struct ResponseEndpoint {
    pub schema: String,
    pub url: String,
    pub ledger_id: String,
    pub genesis_hash: String,
    pub token: Option<String>,
}

/// A ledger's answer to an actor request.
#[derive(Clone, Debug, PartialEq, Eq)]
pub struct ActorResponse {
    pub schema: String,
    pub outcome: String,
    /// The actor's UUID.
    pub actor: u128,
    pub claims: Option<ActorClaims>,
    pub ledger: ResponseLedger,
    /// The capabilities granted.
    pub granted: Vec<String>,
    pub endpoint: ResponseEndpoint,
    pub in_reply_to: String,
    /// The grant bundle, unpadded base64url.
    pub bundle: String,
}

pub struct ClaimsView {
    pub display_name: Option<Seq<char>>,
    pub alias: Option<Seq<char>>,
    pub actor_type: Option<Seq<char>>,
}

pub struct RequestView {
    pub schema: Seq<char>,
    pub actor: u128,
    pub claims: ClaimsView,
    pub requests: Seq<Seq<char>>,
    pub bundle: Seq<char>,
}

pub struct LedgerView {
    pub id: u128,
    pub genesis_hash: Seq<char>,
    pub namespace: Seq<char>,
}

pub struct EndpointView {
    pub schema: Seq<char>,
    pub url: Seq<char>,
    pub ledger_id: Seq<char>,
    pub genesis_hash: Seq<char>,
    pub token: Option<Seq<char>>,
}

pub struct ResponseView {
    pub schema: Seq<char>,
    pub outcome: Seq<char>,
    pub actor: u128,
    pub claims: Option<ClaimsView>,
    pub ledger: LedgerView,
    pub granted: Seq<Seq<char>>,
    pub endpoint: EndpointView,
    pub in_reply_to: Seq<char>,
    pub bundle: Seq<char>,
}

pub open spec fn opt_text(o: Option<String>) -> Option<Seq<char>> {
    match o {
        Some(s) => Some(s@),
        None => None,
    }
}

impl View for ActorClaims {
    type V = ClaimsView;

    open spec fn view(&self) -> ClaimsView {
        ClaimsView {
            display_name: opt_text(self.display_name),
            alias: opt_text(self.alias),
            actor_type: opt_text(self.actor_type),
        }
    }
}

impl View for ActorRequest {
    type V = RequestView;

    open spec fn view(&self) -> RequestView {
        RequestView {
            schema: self.schema@,
            actor: self.actor,
            claims: self.claims@,
            requests: texts(self.requests@),
            bundle: self.bundle@,
        }
    }
}

impl View for ResponseLedger {
    type V = LedgerView;

    open spec fn view(&self) -> LedgerView {
        LedgerView { id: self.id, genesis_hash: self.genesis_hash@, namespace: self.namespace@ }
    }
}

impl View for ResponseEndpoint {
    type V = EndpointView;

    open spec fn view(&self) -> EndpointView {
        EndpointView {
            schema: self.schema@,
            url: self.url@,
            ledger_id: self.ledger_id@,
            genesis_hash: self.genesis_hash@,
            token: opt_text(self.token),
        }
    }
}

pub open spec fn opt_claims(o: Option<ActorClaims>) -> Option<ClaimsView> {
    match o {
        Some(c) => Some(c@),
        None => None,
    }
}

impl View for ActorResponse {
    type V = ResponseView;

    open spec fn view(&self) -> ResponseView {
        ResponseView {
            schema: self.schema@,
            outcome: self.outcome@,
            actor: self.actor,
            claims: opt_claims(self.claims),
            ledger: self.ledger@,
            granted: texts(self.granted@),
            endpoint: self.endpoint@,
            in_reply_to: self.in_reply_to@,
            bundle: self.bundle@,
        }
    }
}

/// Builds a request artifact: the request schema, and the bundle encoded as
/// unpadded base64url.
pub fn encode_actor_request(
    actor: u128,
    claims: ActorClaims,
    requests: Vec<String>,
    bundle: &[u8],
) -> (r: ActorRequest)
    ensures
        r@.schema == REQUEST_SCHEMA@,
        r.actor == actor,
        r.claims == claims,
        r.requests == requests,
        r@.bundle == encode_spec(bundle@),
{
    ActorRequest {
        schema: REQUEST_SCHEMA.to_owned(),
        actor,
        claims,
        requests,
        bundle: encode_base64url(bundle),
    }
}

/// Builds a response artifact granting access: the response schema, the
/// outcome `granted`, and the bundle encoded as unpadded base64url.
pub fn encode_actor_response(
    actor: u128,
    claims: Option<ActorClaims>,
    ledger: ResponseLedger,
    granted: Vec<String>,
    endpoint: ResponseEndpoint,
    in_reply_to: String,
    bundle: &[u8],
) -> (r: ActorResponse)
    ensures
        r@.schema == RESPONSE_SCHEMA@,
        r@.outcome == "granted"@,
        r.actor == actor,
        r.claims == claims,
        r.ledger == ledger,
        r.granted == granted,
        r.endpoint == endpoint,
        r.in_reply_to == in_reply_to,
        r@.bundle == encode_spec(bundle@),
{
    ActorResponse {
        schema: RESPONSE_SCHEMA.to_owned(),
        outcome: "granted".to_owned(),
        actor,
        claims,
        ledger,
        granted,
        endpoint,
        in_reply_to,
        bundle: encode_base64url(bundle),
    }
}

pub open spec fn opt_text_json(o: Option<Seq<char>>) -> JsonValue {
    match o {
        Some(s) => JsonValue::Str(s),
        None => JsonValue::Null,
    }
}

pub open spec fn texts_json(l: Seq<Seq<char>>) -> JsonValue {
    JsonValue::Array(l.map_values(|s: Seq<char>| JsonValue::Str(s)))
}

/// How an [`ActorClaims`] is written: its three fields in order, `null`
/// for an absent one.
pub open spec fn claims_json(c: ClaimsView) -> JsonValue {
    JsonValue::Object(
        seq![
            ("display_name"@, opt_text_json(c.display_name)),
            ("alias"@, opt_text_json(c.alias)),
            ("actor_type"@, opt_text_json(c.actor_type)),
        ],
    )
}

/// How an [`ActorRequest`] is written: its fields in declaration order, the
/// actor as its lowercase hyphenated UUID.
pub open spec fn request_json_value(r: RequestView) -> JsonValue {
    JsonValue::Object(
        seq![
            ("schema"@, JsonValue::Str(r.schema)),
            ("actor"@, JsonValue::Str(uuid_hyphenated(r.actor))),
            ("claims"@, claims_json(r.claims)),
            ("requests"@, texts_json(r.requests)),
            ("bundle"@, JsonValue::Str(r.bundle)),
        ],
    )
}

pub open spec fn ledger_json(l: LedgerView) -> JsonValue {
    JsonValue::Object(
        seq![
            ("id"@, JsonValue::Str(uuid_hyphenated(l.id))),
            ("genesis_hash"@, JsonValue::Str(l.genesis_hash)),
            ("namespace"@, JsonValue::Str(l.namespace)),
        ],
    )
}

pub open spec fn endpoint_json(e: EndpointView) -> JsonValue {
    JsonValue::Object(
        seq![
            ("schema"@, JsonValue::Str(e.schema)),
            ("url"@, JsonValue::Str(e.url)),
            ("ledger_id"@, JsonValue::Str(e.ledger_id)),
            ("genesis_hash"@, JsonValue::Str(e.genesis_hash)),
            ("token"@, opt_text_json(e.token)),
        ],
    )
}

/// How an [`ActorResponse`] is written: its fields in declaration order,
/// with `claims` left out when there are none.
pub open spec fn response_json_value(r: ResponseView) -> JsonValue {
    let head = seq![
        ("schema"@, JsonValue::Str(r.schema)),
        ("outcome"@, JsonValue::Str(r.outcome)),
        ("actor"@, JsonValue::Str(uuid_hyphenated(r.actor))),
    ];
    let claims = match r.claims {
        Some(c) => seq![("claims"@, claims_json(c))],
        None => Seq::empty(),
    };
    let tail = seq![
        ("ledger"@, ledger_json(r.ledger)),
        ("granted"@, texts_json(r.granted)),
        ("endpoint"@, endpoint_json(r.endpoint)),
        ("in_reply_to"@, JsonValue::Str(r.in_reply_to)),
        ("bundle"@, JsonValue::Str(r.bundle)),
    ];
    JsonValue::Object(head + claims + tail)
}

pub(crate) fn opt_text_to_json(o: &Option<String>) -> (j: Json)
    ensures
        j@ == opt_text_json(opt_text(*o)),
{
    match o {
        Some(s) => Json::Str(s.clone()),
        None => Json::Null,
    }
}

pub(crate) fn texts_to_json(v: &Vec<String>) -> (j: Json)
    ensures
        j@ == texts_json(texts(v@)),
{
    let mut items: Vec<Json> = Vec::new();
    let mut i: usize = 0;
    while i < v.len()
        invariant
            i <= v@.len(),
            items@.len() == i,
            forall|k: int| 0 <= k < i ==> #[trigger] items@[k]@ == JsonValue::Str(v@[k]@),
        decreases v@.len() - i,
    {
        items.push(Json::Str(v[i].clone()));
        i = i + 1;
    }
    let j = Json::Array(items);
    proof {
        let inner = match j@ {
            JsonValue::Array(s) => s,
            _ => Seq::empty(),
        };
        let expected = texts(v@).map_values(|s: Seq<char>| JsonValue::Str(s));
        assert forall|k: int| 0 <= k < inner.len() implies inner[k] == expected[k] by {
            assert(items@[k]@ == JsonValue::Str(v@[k]@));
        }
        assert(inner =~= expected);
    }
    j
}

pub(crate) fn claims_to_json(c: &ActorClaims) -> (j: Json)
    ensures
        j@ == claims_json(c@),
{
    let members = vec![
        ("display_name".to_owned(), opt_text_to_json(&c.display_name)),
        ("alias".to_owned(), opt_text_to_json(&c.alias)),
        ("actor_type".to_owned(), opt_text_to_json(&c.actor_type)),
    ];
    let j = Json::Object(members);
    proof {
        let inner = match j@ {
            JsonValue::Object(s) => s,
            _ => Seq::empty(),
        };
        assert(inner =~= seq![
            ("display_name"@, opt_text_json(c@.display_name)),
            ("alias"@, opt_text_json(c@.alias)),
            ("actor_type"@, opt_text_json(c@.actor_type)),
        ]);
    }
    j
}

/// The JSON document of a request, as it is written out.
pub fn request_to_json(r: &ActorRequest) -> (j: Json)
    ensures
        j@ == request_json_value(r@),
{
    let schema = Json::Str(r.schema.clone());
    let actor = Json::Str(uuid_text(r.actor));
    let bundle = Json::Str(r.bundle.clone());
    assert(schema@ == JsonValue::Str(r.schema@));
    assert(actor@ == JsonValue::Str(uuid_hyphenated(r.actor)));
    assert(bundle@ == JsonValue::Str(r.bundle@));
    let members = vec![
        ("schema".to_owned(), schema),
        ("actor".to_owned(), actor),
        ("claims".to_owned(), claims_to_json(&r.claims)),
        ("requests".to_owned(), texts_to_json(&r.requests)),
        ("bundle".to_owned(), bundle),
    ];
    let j = Json::Object(members);
    proof {
        let inner = match j@ {
            JsonValue::Object(s) => s,
            _ => Seq::empty(),
        };
        let expected = match request_json_value(r@) {
            JsonValue::Object(s) => s,
            _ => Seq::empty(),
        };
        assert(inner =~= expected);
    }
    j
}

fn ledger_to_json(l: &ResponseLedger) -> (j: Json)
    ensures
        j@ == ledger_json(l@),
{
    let id = Json::Str(uuid_text(l.id));
    let genesis_hash = Json::Str(l.genesis_hash.clone());
    let namespace = Json::Str(l.namespace.clone());
    assert(id@ == JsonValue::Str(uuid_hyphenated(l.id)));
    assert(genesis_hash@ == JsonValue::Str(l.genesis_hash@));
    assert(namespace@ == JsonValue::Str(l.namespace@));
    let members = vec![
        ("id".to_owned(), id),
        ("genesis_hash".to_owned(), genesis_hash),
        ("namespace".to_owned(), namespace),
    ];
    let j = Json::Object(members);
    proof {
        let inner = match j@ {
            JsonValue::Object(s) => s,
            _ => Seq::empty(),
        };
        let expected = match ledger_json(l@) {
            JsonValue::Object(s) => s,
            _ => Seq::empty(),
        };
        assert(inner =~= expected);
    }
    j
}

fn endpoint_to_json(e: &ResponseEndpoint) -> (j: Json)
    ensures
        j@ == endpoint_json(e@),
{
    let schema = Json::Str(e.schema.clone());
    let url = Json::Str(e.url.clone());
    let ledger_id = Json::Str(e.ledger_id.clone());
    let genesis_hash = Json::Str(e.genesis_hash.clone());
    assert(schema@ == JsonValue::Str(e.schema@));
    assert(url@ == JsonValue::Str(e.url@));
    assert(ledger_id@ == JsonValue::Str(e.ledger_id@));
    assert(genesis_hash@ == JsonValue::Str(e.genesis_hash@));
    let members = vec![
        ("schema".to_owned(), schema),
        ("url".to_owned(), url),
        ("ledger_id".to_owned(), ledger_id),
        ("genesis_hash".to_owned(), genesis_hash),
        ("token".to_owned(), opt_text_to_json(&e.token)),
    ];
    let j = Json::Object(members);
    proof {
        let inner = match j@ {
            JsonValue::Object(s) => s,
            _ => Seq::empty(),
        };
        let expected = match endpoint_json(e@) {
            JsonValue::Object(s) => s,
            _ => Seq::empty(),
        };
        assert(inner =~= expected);
    }
    j
}

/// The JSON document of a response, as it is written out.
pub fn response_to_json(r: &ActorResponse) -> (j: Json)
    ensures
        j@ == response_json_value(r@),
{
    let schema = Json::Str(r.schema.clone());
    let outcome = Json::Str(r.outcome.clone());
    let actor = Json::Str(uuid_text(r.actor));
    let in_reply_to = Json::Str(r.in_reply_to.clone());
    let bundle = Json::Str(r.bundle.clone());
    assert(schema@ == JsonValue::Str(r.schema@));
    assert(outcome@ == JsonValue::Str(r.outcome@));
    assert(actor@ == JsonValue::Str(uuid_hyphenated(r.actor)));
    assert(in_reply_to@ == JsonValue::Str(r.in_reply_to@));
    assert(bundle@ == JsonValue::Str(r.bundle@));
    let mut members: Vec<(String, Json)> = vec![
        ("schema".to_owned(), schema),
        ("outcome".to_owned(), outcome),
        ("actor".to_owned(), actor),
    ];
    match &r.claims {
        Some(c) => {
            members.push(("claims".to_owned(), claims_to_json(c)));
        },
        None => {},
    }
    members.push(("ledger".to_owned(), ledger_to_json(&r.ledger)));
    members.push(("granted".to_owned(), texts_to_json(&r.granted)));
    members.push(("endpoint".to_owned(), endpoint_to_json(&r.endpoint)));
    members.push(("in_reply_to".to_owned(), in_reply_to));
    members.push(("bundle".to_owned(), bundle));
    let j = Json::Object(members);
    proof {
        let inner = match j@ {
            JsonValue::Object(s) => s,
            _ => Seq::empty(),
        };
        let expected = match response_json_value(r@) {
            JsonValue::Object(s) => s,
            _ => Seq::empty(),
        };
        assert(inner =~= expected);
    }
    j
}

/// The bytes of an artifact: the JSON text alone, or wrapped in a BEGIN line
/// and an END line, each line ending in a newline.
pub open spec fn framed(json: Seq<char>, delimiters: Option<(Seq<char>, Seq<char>)>) -> Seq<u8> {
    match delimiters {
        Some((begin, end)) => encode_utf8(
            begin + seq!['\n'] + json + seq!['\n'] + end + seq!['\n'],
        ),
        None => encode_utf8(json),
    }
}

/// The artifact bytes for a document: `serde_json` pretty text, framed.
pub open spec fn artifact_json_spec(
    value: JsonValue,
    delimiters: Option<(Seq<char>, Seq<char>)>,
) -> Result<Seq<u8>, Seq<char>> {
    match json_pretty_text(value) {
        Ok(text) => Ok(framed(text, delimiters)),
        Err(e) => Err(e),
    }
}

pub open spec fn bytes_result(r: Result<Vec<u8>, String>) -> Result<Seq<u8>, Seq<char>> {
    match r {
        Ok(b) => Ok(b@),
        Err(e) => Err(e@),
    }
}

fn artifact_json(value: &Json, delimiters: Option<(&str, &str)>) -> (r: Result<Vec<u8>, String>)
    ensures
        bytes_result(r) == artifact_json_spec(
            value@,
            match delimiters {
                Some((b, e)) => Some((b@, e@)),
                None => None,
            },
        ),
{
    let json = pretty_json(value)?;
    match delimiters {
        Some((begin, end)) => {
            let mut text = begin.to_owned();
            push_str(&mut text, "\n");
            push_str(&mut text, json.as_str());
            push_str(&mut text, "\n");
            push_str(&mut text, end);
            push_str(&mut text, "\n");
            proof {
                reveal_strlit("\n");
                assert(text@ =~= begin@ + seq!['\n'] + json@ + seq!['\n'] + end@ + seq!['\n']);
            }
            Ok(text_bytes(text.as_str()))
        },
        None => Ok(text_bytes(json.as_str())),
    }
}

pub open spec fn request_delimiters(wrapped: bool) -> Option<(Seq<char>, Seq<char>)> {
    if wrapped {
        Some((REQUEST_BEGIN@, REQUEST_END@))
    } else {
        None
    }
}

pub open spec fn response_delimiters(wrapped: bool) -> Option<(Seq<char>, Seq<char>)> {
    if wrapped {
        Some((RESPONSE_BEGIN@, RESPONSE_END@))
    } else {
        None
    }
}

/// The bytes of a request artifact: its JSON document pretty-printed, and
/// with `wrapped` framed by the request BEGIN/END lines.
pub fn request_json(request: &ActorRequest, wrapped: bool) -> (r: Result<Vec<u8>, String>)
    ensures
        bytes_result(r) == artifact_json_spec(
            request_json_value(request@),
            request_delimiters(wrapped),
        ),
{
    let value = request_to_json(request);
    if wrapped {
        artifact_json(&value, Some((REQUEST_BEGIN, REQUEST_END)))
    } else {
        artifact_json(&value, None)
    }
}

/// The bytes of a response artifact: its JSON document pretty-printed, and
/// with `wrapped` framed by the response BEGIN/END lines.
pub fn response_json(response: &ActorResponse, wrapped: bool) -> (r: Result<Vec<u8>, String>)
    ensures
        bytes_result(r) == artifact_json_spec(
            response_json_value(response@),
            response_delimiters(wrapped),
        ),
{
    let value = response_to_json(response);
    if wrapped {
        artifact_json(&value, Some((RESPONSE_BEGIN, RESPONSE_END)))
    } else {
        artifact_json(&value, None)
    }
}

/// The JSON text inside an artifact: the bytes decoded as UTF-8 and
/// trimmed; when they begin with the BEGIN line, what lies between it and the
/// END line, trimmed.
pub open spec fn artifact_text(bytes: Seq<u8>, begin: Seq<char>, end: Seq<char>) -> Result<
    Seq<char>,
    Seq<char>,
> {
    if !valid_utf8(bytes) {
        Err(utf8_error_text(bytes))
    } else {
        let trimmed = trim(decode_utf8(bytes));
        if has_prefix(trimmed, begin) {
            let inner = trim(trimmed.skip(begin.len() as int));
            if has_suffix(inner, end) {
                Ok(trim(inner.take(inner.len() - end.len())))
            } else {
                Err("missing "@ + end)
            }
        } else {
            Ok(trimmed)
        }
    }
}

/// The JSON document of an artifact, or why it cannot be read.
pub open spec fn artifact_value_spec(bytes: Seq<u8>, begin: Seq<char>, end: Seq<char>) -> Result<
    JsonValue,
    Seq<char>,
> {
    match artifact_text(bytes, begin, end) {
        Ok(text) => json_text_parse(text),
        Err(e) => Err(e),
    }
}

pub open spec fn json_result(r: Result<Json, String>) -> Result<JsonValue, Seq<char>> {
    match r {
        Ok(v) => Ok(v@),
        Err(e) => Err(e@),
    }
}

pub open spec fn text_result(r: Result<String, String>) -> Result<Seq<char>, Seq<char>> {
    match r {
        Ok(v) => Ok(v@),
        Err(e) => Err(e@),
    }
}

/// Reads the JSON document of an artifact, wrapped or not.
pub fn artifact_value(bytes: &[u8], begin: &str, end: &str) -> (r: Result<Json, String>)
    ensures
        json_result(r) == artifact_value_spec(bytes@, begin@, end@),
{
    let text = utf8_text(bytes)?;
    let trimmed = trim_text(text.as_str());
    if starts_with(trimmed.as_str(), begin) {
        let rest = substring(
            trimmed.as_str(),
            char_len(begin),
            char_len(trimmed.as_str()),
        );
        assert(rest@ =~= trimmed@.skip(begin@.len() as int));
        let inner = trim_text(rest.as_str());
        if ends_with(inner.as_str(), end) {
            let body = substring(inner.as_str(), 0, char_len(inner.as_str()) - char_len(end));
            assert(body@ =~= inner@.take(inner@.len() - end@.len()));
            let json = trim_text(body.as_str());
            parse_json_text(json.as_str())
        } else {
            Err(concat("missing ", end))
        }
    } else {
        parse_json_text(trimmed.as_str())
    }
}

/// The format marker of an artifact: its string member `schema`.
pub open spec fn schema_name_spec(value: JsonValue) -> Result<Seq<char>, Seq<char>> {
    match str_member(value, "schema"@) {
        Some(s) => Ok(s),
        None => Err("artifact is missing its format marker"@),
    }
}

/// Reads the format marker of an artifact.
pub fn schema_name(value: &Json) -> (r: Result<String, String>)
    ensures
        text_result(r) == schema_name_spec(value@),
{
    match get_str(value, "schema") {
        Some(s) => Ok(s),
        None => Err("artifact is missing its format marker".to_owned()),
    }
}

/// Whether a bundle text decodes as base64url (ASCII whitespace skipped).
pub open spec fn bundle_decodes(bundle: Seq<char>) -> bool {
    decode_spec(encode_utf8(bundle), true) is Some
}

/// Reading a request artifact: its document, whose format marker must be the
/// request schema, read as an [`ActorRequest`] whose bundle must decode.
pub open spec fn parse_request_spec(bytes: Seq<u8>) -> Result<RequestView, Seq<char>> {
    match artifact_value_spec(bytes, REQUEST_BEGIN@, REQUEST_END@) {
        Err(e) => Err(e),
        Ok(value) => match schema_name_spec(value) {
            Err(e) => Err(e),
            Ok(schema) => if schema != REQUEST_SCHEMA@ {
                Err("expected a remote actor request artifact"@)
            } else {
                match request_decode_spec(value) {
                    Err(e) => Err(e),
                    Ok(request) => if !bundle_decodes(request.bundle) {
                        Err("request bundle contains invalid base64url"@)
                    } else {
                        Ok(request)
                    },
                }
            },
        },
    }
}

/// Reading a response artifact: as a request, with the response schema, and
/// the outcome must be `granted`.
pub open spec fn parse_response_spec(bytes: Seq<u8>) -> Result<ResponseView, Seq<char>> {
    match artifact_value_spec(bytes, RESPONSE_BEGIN@, RESPONSE_END@) {
        Err(e) => Err(e),
        Ok(value) => match schema_name_spec(value) {
            Err(e) => Err(e),
            Ok(schema) => if schema != RESPONSE_SCHEMA@ {
                Err("expected a remote actor response artifact"@)
            } else {
                match response_decode_spec(value) {
                    Err(e) => Err(e),
                    Ok(response) => if response.outcome != "granted"@ {
                        Err("unsupported actor response outcome "@ + response.outcome)
                    } else if !bundle_decodes(response.bundle) {
                        Err("response bundle contains invalid base64url"@)
                    } else {
                        Ok(response)
                    },
                }
            },
        },
    }
}

/// Reads a request artifact, wrapped or bare.
pub fn parse_request(bytes: &[u8]) -> (r: Result<ActorRequest, String>)
    ensures
        request_result(r) == parse_request_spec(bytes@),
{
    let value = artifact_value(bytes, REQUEST_BEGIN, REQUEST_END)?;
    let schema = schema_name(&value)?;
    if !str_eq(schema.as_str(), REQUEST_SCHEMA) {
        return Err("expected a remote actor request artifact".to_owned());
    }
    let request = decode_request(&value)?;
    match decode_base64url(request.bundle.as_str()) {
        Some(_) => Ok(request),
        None => Err("request bundle contains invalid base64url".to_owned()),
    }
}

/// Reads a response artifact, wrapped or bare.
pub fn parse_response(bytes: &[u8]) -> (r: Result<ActorResponse, String>)
    ensures
        response_result(r) == parse_response_spec(bytes@),
{
    let value = artifact_value(bytes, RESPONSE_BEGIN, RESPONSE_END)?;
    let schema = schema_name(&value)?;
    if !str_eq(schema.as_str(), RESPONSE_SCHEMA) {
        return Err("expected a remote actor response artifact".to_owned());
    }
    let response = decode_response(&value)?;
    if !str_eq(response.outcome.as_str(), "granted") {
        return Err(concat("unsupported actor response outcome ", response.outcome.as_str()));
    }
    match decode_base64url(response.bundle.as_str()) {
        Some(_) => Ok(response),
        None => Err("response bundle contains invalid base64url".to_owned()),
    }
}

pub open spec fn bundle_result(r: Result<Vec<u8>, String>) -> Result<Seq<u8>, Seq<char>> {
    match r {
        Ok(b) => Ok(b@),
        Err(e) => Err(e@),
    }
}

/// The bytes of a bundle text, or the given complaint when it is not base64url.
pub open spec fn bundle_spec(bundle: Seq<char>, complaint: Seq<char>) -> Result<Seq<u8>, Seq<char>> {
    match decode_spec(encode_utf8(bundle), true) {
        Some(b) => Ok(b),
        None => Err(complaint),
    }
}

/// The identity bundle carried by a request.
pub fn request_bundle(request: &ActorRequest) -> (r: Result<Vec<u8>, String>)
    ensures
        bundle_result(r) == bundle_spec(
            request@.bundle,
            "request bundle contains invalid base64url"@,
        ),
{
    match decode_base64url(request.bundle.as_str()) {
        Some(b) => Ok(b),
        None => Err("request bundle contains invalid base64url".to_owned()),
    }
}

/// The grant bundle carried by a response.
pub fn response_bundle(response: &ActorResponse) -> (r: Result<Vec<u8>, String>)
    ensures
        bundle_result(r) == bundle_spec(
            response@.bundle,
            "response bundle contains invalid base64url"@,
        ),
{
    match decode_base64url(response.bundle.as_str()) {
        Some(b) => Ok(b),
        None => Err("response bundle contains invalid base64url".to_owned()),
    }
}

/// The string elements of an array, in order; other elements are skipped.
pub open spec fn strings_of(items: Seq<JsonValue>) -> Seq<Seq<char>>
    decreases items.len(),
{
    if items.len() == 0 {
        Seq::empty()
    } else {
        match items.last() {
            JsonValue::Str(s) => strings_of(items.drop_last()).push(s),
            _ => strings_of(items.drop_last()),
        }
    }
}

/// The capabilities one signed payload grants to `actor`: none unless it is
/// an authorization grant whose body names `actor` as the receiving actor;
/// a grant without an object body is an error.
pub open spec fn grant_capabilities(v: JsonValue, actor: u128) -> Result<Seq<Seq<char>>, Seq<char>> {
    if str_member(v, "object_type"@) != Some("authorization_grant"@) {
        Ok(Seq::empty())
    } else {
        match member(v, "body"@) {
            Some(JsonValue::Object(members)) => {
                let body = JsonValue::Object(members);
                if str_member(body, "receiving_actor_id"@) != Some(uuid_hyphenated(actor)) {
                    Ok(Seq::empty())
                } else {
                    match member(body, "capabilities"@) {
                        Some(JsonValue::Array(items)) => Ok(strings_of(items)),
                        _ => Ok(Seq::empty()),
                    }
                }
            },
            _ => Err("authorization grant has no body"@),
        }
    }
}

/// The capabilities granted to `actor` by the payloads of a bundle's signed
/// objects, in order. Each entry is a payload, or the error met decoding its
/// signed envelope; the first error met, in order, is the result.
pub open spec fn granted_capabilities(
    payloads: Seq<Result<Seq<u8>, Seq<char>>>,
    actor: u128,
) -> Result<Seq<Seq<char>>, Seq<char>>
    decreases payloads.len(),
{
    if payloads.len() == 0 {
        Ok(Seq::empty())
    } else {
        match payloads[0] {
            Err(e) => Err(e),
            Ok(bytes) => match json_bytes_parse(bytes) {
                Err(e) => Err(e),
                Ok(v) => match grant_capabilities(v, actor) {
                    Err(e) => Err(e),
                    Ok(first) => match granted_capabilities(payloads.drop_first(), actor) {
                        Err(e) => Err(e),
                        Ok(rest) => Ok(first + rest),
                    },
                },
            },
        }
    }
}

/// Whether the capabilities a response lists are, as a set, those its
/// bundle's grants give the response's actor.
pub open spec fn grants_match_spec(
    granted: Seq<Seq<char>>,
    actor: u128,
    payloads: Seq<Result<Seq<u8>, Seq<char>>>,
) -> Result<bool, Seq<char>> {
    match granted_capabilities(payloads, actor) {
        Err(e) => Err(e),
        Ok(actual) => Ok(actual.to_set() == granted.to_set()),
    }
}

pub open spec fn payload_view(p: Result<Vec<u8>, String>) -> Result<Seq<u8>, Seq<char>> {
    match p {
        Ok(b) => Ok(b@),
        Err(e) => Err(e@),
    }
}

pub open spec fn payload_views(ps: Seq<Result<Vec<u8>, String>>) -> Seq<Result<Seq<u8>, Seq<char>>> {
    ps.map_values(|p: Result<Vec<u8>, String>| payload_view(p))
}

pub open spec fn texts_result(r: Result<Vec<String>, String>) -> Result<Seq<Seq<char>>, Seq<char>> {
    match r {
        Ok(v) => Ok(texts(v@)),
        Err(e) => Err(e@),
    }
}

fn string_items(items: &Vec<Json>) -> (out: Vec<String>)
    ensures
        texts(out@) == strings_of(items@.map_values(|j: Json| j@)),
{
    let ghost all = items@.map_values(|j: Json| j@);
    let mut out: Vec<String> = Vec::new();
    let mut i: usize = 0;
    while i < items.len()
        invariant
            i <= items@.len(),
            all == items@.map_values(|j: Json| j@),
            texts(out@) == strings_of(all.take(i as int)),
        decreases items@.len() - i,
    {
        assert(all.take(i + 1).drop_last() =~= all.take(i as int));
        assert(all.take(i + 1).last() == items@[i as int]@);
        match &items[i] {
            Json::Str(s) => {
                out.push(s.clone());
                assert(texts(out@) =~= strings_of(all.take(i as int)).push(s@));
            },
            _ => {},
        }
        i = i + 1;
    }
    assert(all.take(items@.len() as int) =~= all);
    out
}

fn no_texts() -> (v: Vec<String>)
    ensures
        texts(v@) == Seq::<Seq<char>>::empty(),
{
    let v: Vec<String> = Vec::new();
    assert(texts(v@) =~= Seq::<Seq<char>>::empty());
    v
}

fn payload_grant(value: &Json, actor: u128, actor_text: &str) -> (r: Result<Vec<String>, String>)
    requires
        actor_text@ == uuid_hyphenated(actor),
    ensures
        texts_result(r) == grant_capabilities(value@, actor),
{
    match get_str(value, "object_type") {
        Some(t) => {
            if !str_eq(t.as_str(), "authorization_grant") {
                return Ok(no_texts());
            }
        },
        None => {
            return Ok(no_texts());
        },
    }
    let body = match get(value, "body") {
        Some(b) => match b {
            Json::Object(_) => b,
            _ => {
                return Err("authorization grant has no body".to_owned());
            },
        },
        None => {
            return Err("authorization grant has no body".to_owned());
        },
    };
    match get_str(body, "receiving_actor_id") {
        Some(t) => {
            if !str_eq(t.as_str(), actor_text) {
                return Ok(no_texts());
            }
        },
        None => {
            return Ok(no_texts());
        },
    }
    match get(body, "capabilities") {
        Some(c) => match c {
            Json::Array(items) => {
                let out = string_items(items);
                proof {
                    crate::json::lemma_array_value(c, items);
                    assert(crate::json::array_items(c@) =~= items@.map_values(|j: Json| j@));
                }
                Ok(out)
            },
            _ => Ok(no_texts()),
        },
        None => Ok(no_texts()),
    }
}

fn all_contained(a: &Vec<String>, b: &Vec<String>) -> (r: bool)
    ensures
        r == (forall|x: Seq<char>| texts(a@).contains(x) ==> texts(b@).contains(x)),
{
    let mut i: usize = 0;
    while i < a.len()
        invariant
            i <= a@.len(),
            forall|k: int| 0 <= k < i ==> texts(b@).contains(#[trigger] texts(a@)[k]),
        decreases a@.len() - i,
    {
        if !contains_text(b, &a[i]) {
            assert(texts(a@).contains(texts(a@)[i as int]));
            return false;
        }
        i = i + 1;
    }
    proof {
        assert forall|x: Seq<char>| texts(a@).contains(x) implies texts(b@).contains(x) by {
            let k = choose|k: int| 0 <= k < texts(a@).len() && texts(a@)[k] == x;
        }
    }
    true
}

/// Whether a response's granted capabilities are, as a set, those that the
/// authorization grants among its bundle's signed payloads give its actor.
/// `payloads` holds, per signed object of the bundle, its payload or the
/// error met opening its envelope.
pub fn grants_match_payloads(response: &ActorResponse, payloads: &Vec<Result<Vec<u8>, String>>) -> (r:
    Result<bool, String>)
    ensures
        match r {
            Ok(b) => grants_match_spec(response@.granted, response.actor, payload_views(payloads@))
                == Ok::<bool, Seq<char>>(b),
            Err(e) => grants_match_spec(response@.granted, response.actor, payload_views(payloads@))
                == Err::<bool, Seq<char>>(e@),
        },
{
    let ghost pv = payload_views(payloads@);
    let actor_text = uuid_text(response.actor);
    let mut actual: Vec<String> = Vec::new();
    let mut i: usize = 0;
    assert(pv.skip(0) =~= pv);
    while i < payloads.len()
        invariant
            i <= payloads@.len(),
            pv == payload_views(payloads@),
            actor_text@ == uuid_hyphenated(response.actor),
            granted_capabilities(pv, response.actor) == match granted_capabilities(
                pv.skip(i as int),
                response.actor,
            ) {
                Ok(rest) => Ok(texts(actual@) + rest),
                Err(e) => Err(e),
            },
        decreases payloads@.len() - i,
    {
        assert(pv.skip(i as int).drop_first() =~= pv.skip(i + 1));
        assert(pv.skip(i as int)[0] == payload_view(payloads@[i as int]));
        let bytes = match &payloads[i] {
            Ok(b) => b,
            Err(e) => {
                return Err(e.clone());
            },
        };
        let value = match parse_json_bytes(bytes.as_slice()) {
            Ok(v) => v,
            Err(e) => {
                return Err(e);
            },
        };
        let caps = match payload_grant(&value, response.actor, actor_text.as_str()) {
            Ok(c) => c,
            Err(e) => {
                return Err(e);
            },
        };
        let ghost before = texts(actual@);
        let mut k: usize = 0;
        while k < caps.len()
            invariant
                k <= caps@.len(),
                texts(actual@) == before + texts(caps@).take(k as int),
            decreases caps@.len() - k,
        {
            let c = caps[k].clone();
            assert(c@ == caps@[k as int]@);
            let ghost prev = actual@;
            actual.push(c);
            assert(texts(actual@) =~= texts(prev).push(c@));
            assert(texts(caps@).take(k + 1) =~= texts(caps@).take(k as int).push(c@));
            assert(texts(actual@) =~= before + texts(caps@).take(k + 1));
            k = k + 1;
        }
        assert(texts(caps@).take(caps@.len() as int) =~= texts(caps@));
        proof {
            match granted_capabilities(pv.skip(i + 1), response.actor) {
                Ok(rest) => {
                    assert(before + texts(caps@) + rest =~= before + (texts(caps@) + rest));
                },
                Err(_) => {},
            }
        }
        i = i + 1;
    }
    assert(pv.skip(i as int) =~= Seq::<Result<Seq<u8>, Seq<char>>>::empty());
    assert(texts(actual@) + Seq::<Seq<char>>::empty() =~= texts(actual@));
    let forward = all_contained(&actual, &response.granted);
    let backward = all_contained(&response.granted, &actual);
    proof {
        let x = texts(actual@).to_set();
        let y = texts(response.granted@).to_set();
        if forward && backward {
            assert(x =~= y);
        } else if !forward {
            let w = choose|w: Seq<char>| !(texts(actual@).contains(w) ==> texts(response.granted@).contains(w));
            assert(x.contains(w) && !y.contains(w));
        } else {
            let w = choose|w: Seq<char>| !(texts(response.granted@).contains(w) ==> texts(actual@).contains(w));
            assert(y.contains(w) && !x.contains(w));
        }
    }
    Ok(forward && backward)
}

proof fn lemma_trim_keeps(s: Seq<char>)
    requires
        s.len() > 0,
        !is_unicode_whitespace(s[0]),
        !is_unicode_whitespace(s.last()),
    ensures
        trim(s) == s,
{
    assert(trim_start(s) == s);
    assert(trim_end(s) == s);
}

proof fn lemma_trim_start_newline(s: Seq<char>)
    ensures
        trim_start(seq!['\n'] + s) == trim_start(s),
{
    assert((seq!['\n'] + s).drop_first() =~= s);
}

proof fn lemma_trim_end_newline(s: Seq<char>)
    ensures
        trim_end(s + seq!['\n']) == trim_end(s),
{
    assert((s + seq!['\n']).drop_last() =~= s);
}

/// The JSON text inside an artifact is the text that was framed, given
/// that it is a JSON object's text without surrounding whitespace and that
/// the BEGIN and END lines begin and end with `-`.
proof fn lemma_frame_read_back(text: Seq<char>, begin: Seq<char>, end: Seq<char>, wrapped: bool)
    requires
        text.len() > 0,
        text[0] == '{',
        !is_unicode_whitespace(text.last()),
        begin.len() > 0 && begin[0] == '-' && begin.last() == '-',
        end.len() > 0 && end[0] == '-' && end.last() == '-',
    ensures
        artifact_text(
            framed(
                text,
                if wrapped {
                    Some((begin, end))
                } else {
                    None
                },
            ),
            begin,
            end,
        ) == Ok::<Seq<char>, Seq<char>>(text),
{
    broadcast use encode_utf8_valid_utf8, encode_utf8_decode_utf8;

    if wrapped {
        let x = begin + seq!['\n'] + text + seq!['\n'] + end + seq!['\n'];
        let y = begin + seq!['\n'] + text + seq!['\n'] + end;
        assert(x =~= y + seq!['\n']);
        assert(trim_start(x) == x) by {
            assert(x[0] == '-');
        }
        lemma_trim_end_newline(y);
        assert(trim_end(y) == y) by {
            assert(y.last() == '-');
        }
        assert(trim(x) == y);
        assert(y.take(begin.len() as int) =~= begin);
        let rest = y.skip(begin.len() as int);
        let inner = text + seq!['\n'] + end;
        assert(rest =~= seq!['\n'] + inner);
        lemma_trim_start_newline(inner);
        assert(trim_start(inner) == inner) by {
            assert(inner[0] == '{');
        }
        assert(trim_end(inner) == inner) by {
            assert(inner.last() == '-');
        }
        assert(trim(rest) == inner);
        assert(inner.skip(inner.len() - end.len()) =~= end);
        let body = inner.take(inner.len() - end.len());
        assert(body =~= text + seq!['\n']);
        assert(trim_start(body) == body) by {
            assert(body[0] == '{');
        }
        lemma_trim_end_newline(text);
        assert(trim_end(text) == text);
        assert(trim(body) == text);
    } else {
        lemma_trim_keeps(text);
        assert(!has_prefix(text, begin)) by {
            if has_prefix(text, begin) {
                assert(text.take(begin.len() as int)[0] == text[0]);
            }
        }
    }
}

proof fn lemma_request_frame_read_back(text: Seq<char>, wrapped: bool)
    requires
        text.len() > 0,
        text[0] == '{',
        !is_unicode_whitespace(text.last()),
    ensures
        artifact_text(framed(text, request_delimiters(wrapped)), REQUEST_BEGIN@, REQUEST_END@)
            == Ok::<Seq<char>, Seq<char>>(text),
{
    reveal_strlit("-----BEGIN FACT REMOTE ACTOR REQUEST-----");
    reveal_strlit("-----END FACT REMOTE ACTOR REQUEST-----");
    lemma_frame_read_back(text, REQUEST_BEGIN@, REQUEST_END@, wrapped);
}

/// Writing a request artifact and reading it back gives the request back,
/// for every bundle text of base64url symbols and whitespace, of any
/// length; a bundle written from bytes decodes to those bytes. The law takes as given two facts of `serde_json`: the text
/// it prints for the request's document is a JSON object without
/// surrounding whitespace, and it reads that text back as the same document.
pub proof fn law_request_round_trip(r: RequestView, bundle: Seq<u8>, wrapped: bool, text: Seq<char>)
    requires
        r.schema == REQUEST_SCHEMA@,
        base64url_text(r.bundle),
        json_pretty_text(request_json_value(r)) == Ok::<Seq<char>, Seq<char>>(text),
        json_text_parse(text) == Ok::<JsonValue, Seq<char>>(request_json_value(r)),
        text.len() > 0,
        text[0] == '{',
        !is_unicode_whitespace(text.last()),
    ensures
        artifact_json_spec(request_json_value(r), request_delimiters(wrapped)) == Ok::<
            Seq<u8>,
            Seq<char>,
        >(framed(text, request_delimiters(wrapped))),
        parse_request_spec(framed(text, request_delimiters(wrapped))) == Ok::<
            RequestView,
            Seq<char>,
        >(r),
        r.bundle == encode_spec(bundle) ==> bundle_spec(
            r.bundle,
            "request bundle contains invalid base64url"@,
        ) == Ok::<
            Seq<u8>,
            Seq<char>,
        >(bundle),
{
    lemma_request_frame_read_back(text, wrapped);
    lemma_request_read_back(r);
    law_decode_encode_roundtrip(bundle, true);
    law_base64url_text_decodes(r.bundle);
    reveal_strlit("schema");
    assert(str_member(request_json_value(r), "schema"@) == Some(r.schema));
}

/// A bare request artifact is refused where a response is expected, with
/// the message that says so (and that names no schema). The law takes the
/// same facts of `serde_json` as [`law_request_round_trip`].
pub proof fn law_request_refused_as_response(r: RequestView, text: Seq<char>)
    requires
        r.schema == REQUEST_SCHEMA@,
        json_pretty_text(request_json_value(r)) == Ok::<Seq<char>, Seq<char>>(text),
        json_text_parse(text) == Ok::<JsonValue, Seq<char>>(request_json_value(r)),
        text.len() > 0,
        text[0] == '{',
        !is_unicode_whitespace(text.last()),
    ensures
        parse_response_spec(framed(text, None)) == Err::<ResponseView, Seq<char>>(
            "expected a remote actor response artifact"@,
        ),
{
    broadcast use encode_utf8_valid_utf8, encode_utf8_decode_utf8;

    lemma_trim_keeps(text);
    reveal_strlit("-----BEGIN FACT REMOTE ACTOR RESPONSE-----");
    assert(!has_prefix(text, RESPONSE_BEGIN@)) by {
        if has_prefix(text, RESPONSE_BEGIN@) {
            assert(text.take(RESPONSE_BEGIN@.len() as int)[0] == text[0]);
        }
    }
    reveal_strlit("schema");
    assert(str_member(request_json_value(r), "schema"@) == Some(r.schema));
    reveal_strlit("fact-remote-actor-request-v0");
    reveal_strlit("fact-remote-actor-response-v0");
    assert(REQUEST_SCHEMA@.len() != RESPONSE_SCHEMA@.len());
}

/// Writing a granted response artifact and reading it back gives the
/// response back (with or without claims), for every bundle text of
/// base64url symbols and whitespace; a bundle written from bytes decodes to
/// those bytes. The law takes as given
/// the same two facts of `serde_json` as [`law_request_round_trip`].
pub proof fn law_response_round_trip(r: ResponseView, bundle: Seq<u8>, wrapped: bool, text: Seq<char>)
    requires
        r.schema == RESPONSE_SCHEMA@,
        r.outcome == "granted"@,
        base64url_text(r.bundle),
        json_pretty_text(response_json_value(r)) == Ok::<Seq<char>, Seq<char>>(text),
        json_text_parse(text) == Ok::<JsonValue, Seq<char>>(response_json_value(r)),
        text.len() > 0,
        text[0] == '{',
        !is_unicode_whitespace(text.last()),
    ensures
        artifact_json_spec(response_json_value(r), response_delimiters(wrapped)) == Ok::<
            Seq<u8>,
            Seq<char>,
        >(framed(text, response_delimiters(wrapped))),
        parse_response_spec(framed(text, response_delimiters(wrapped))) == Ok::<
            ResponseView,
            Seq<char>,
        >(r),
        r.bundle == encode_spec(bundle) ==> bundle_spec(
            r.bundle,
            "response bundle contains invalid base64url"@,
        ) == Ok::<
            Seq<u8>,
            Seq<char>,
        >(bundle),
{
    reveal_strlit("-----BEGIN FACT REMOTE ACTOR RESPONSE-----");
    reveal_strlit("-----END FACT REMOTE ACTOR RESPONSE-----");
    lemma_frame_read_back(text, RESPONSE_BEGIN@, RESPONSE_END@, wrapped);
    lemma_response_read_back(r);
    law_decode_encode_roundtrip(bundle, true);
    law_base64url_text_decodes(r.bundle);
    reveal_strlit("schema");
    assert(str_member(response_json_value(r), "schema"@) == Some(r.schema));
}

/// Every request the encoder makes reads back from its artifact, and its
/// bundle gives back the bytes it was made from; the `serde_json` facts are
/// those of [`law_request_round_trip`].
pub proof fn law_encoded_request_round_trip(
    actor: u128,
    claims: ClaimsView,
    requests: Seq<Seq<char>>,
    bundle: Seq<u8>,
    wrapped: bool,
    text: Seq<char>,
)
    requires
        ({
            let r = RequestView {
                schema: REQUEST_SCHEMA@,
                actor,
                claims,
                requests,
                bundle: encode_spec(bundle),
            };
            &&& json_pretty_text(request_json_value(r)) == Ok::<Seq<char>, Seq<char>>(text)
            &&& json_text_parse(text) == Ok::<JsonValue, Seq<char>>(request_json_value(r))
        }),
        text.len() > 0,
        text[0] == '{',
        !is_unicode_whitespace(text.last()),
    ensures
        ({
            let r = RequestView {
                schema: REQUEST_SCHEMA@,
                actor,
                claims,
                requests,
                bundle: encode_spec(bundle),
            };
            &&& parse_request_spec(framed(text, request_delimiters(wrapped))) == Ok::<
                RequestView,
                Seq<char>,
            >(r)
            &&& bundle_spec(r.bundle, "request bundle contains invalid base64url"@) == Ok::<
                Seq<u8>,
                Seq<char>,
            >(bundle)
        }),
{
    lemma_encoded_text_is_base64url(bundle);
    let r = RequestView {
        schema: REQUEST_SCHEMA@,
        actor,
        claims,
        requests,
        bundle: encode_spec(bundle),
    };
    law_request_round_trip(r, bundle, wrapped, text);
}

/// A response matches its bundle exactly when the capabilities the bundle's
/// grants give the response's actor and those the response lists are the
/// same capabilities: every one granted is listed and every one listed is
/// granted. A capability granted in the bundle but missing from the
/// response makes the answer `false`, as does one listed but not granted.
/// A bundle that cannot be read gives its error.
pub proof fn law_grants_match_is_set_equality(
    granted: Seq<Seq<char>>,
    actor: u128,
    payloads: Seq<Result<Seq<u8>, Seq<char>>>,
)
    ensures
        match granted_capabilities(payloads, actor) {
            Ok(actual) => {
                &&& grants_match_spec(granted, actor, payloads) == Ok::<bool, Seq<char>>(
                    forall|c: Seq<char>| #[trigger] actual.contains(c) <==> granted.contains(c),
                )
                &&& (exists|c: Seq<char>| #[trigger] actual.contains(c) && !granted.contains(c))
                    ==> grants_match_spec(granted, actor, payloads) == Ok::<bool, Seq<char>>(false)
                &&& (exists|c: Seq<char>| #[trigger] granted.contains(c) && !actual.contains(c))
                    ==> grants_match_spec(granted, actor, payloads) == Ok::<bool, Seq<char>>(false)
            },
            Err(e) => grants_match_spec(granted, actor, payloads) == Err::<bool, Seq<char>>(e),
        },
{
    match granted_capabilities(payloads, actor) {
        Ok(actual) => {
            let same = forall|c: Seq<char>| #[trigger] actual.contains(c) <==> granted.contains(c);
            if same {
                assert(actual.to_set() =~= granted.to_set());
            } else {
                let w = choose|c: Seq<char>| !(#[trigger] actual.contains(c) <==> granted.contains(c));
                assert(actual.to_set().contains(w) != granted.to_set().contains(w));
            }
            if exists|c: Seq<char>| #[trigger] actual.contains(c) && !granted.contains(c) {
                let w = choose|c: Seq<char>| #[trigger] actual.contains(c) && !granted.contains(c);
                assert(actual.to_set().contains(w) && !granted.to_set().contains(w));
            }
            if exists|c: Seq<char>| #[trigger] granted.contains(c) && !actual.contains(c) {
                let w = choose|c: Seq<char>| #[trigger] granted.contains(c) && !actual.contains(c);
                assert(granted.to_set().contains(w) && !actual.to_set().contains(w));
            }
        },
        Err(_) => {},
    }
}

} // verus!
