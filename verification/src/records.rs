//! Reading the exchange records out of JSON documents, field for field as
//! serde's derived `Deserialize` does for these structs: object members in
//! document order, unknown members ignored, `null` or an absent member for an
//! optional field, arrays read positionally, and the same error texts.

use vstd::prelude::*;
use vstd::utf8::*;
use crate::actor_exchange::{
    claims_json, endpoint_json, ledger_json, opt_text_json, request_json_value, response_json_value,
    texts_json, ActorClaims, ActorRequest, ActorResponse, ClaimsView, EndpointView, LedgerView, RequestView,
    ResponseEndpoint, ResponseLedger, ResponseView, opt_claims, opt_text,
};
use crate::ids::{parse_uuid_text, uuid_hyphenated, uuid_parse_error_text, uuid_parse_spec};
use crate::json::{
    Json, JsonValue, array_items, lemma_array_value, lemma_object_value, object_members,
};
use crate::text::{concat, debug_quoted, debug_text, decimal, decimal_text, push_str, str_eq, texts};

verus! {

/// The records of the exchange.
#[derive(Clone, Copy, PartialEq, Eq, Structural)]
pub enum Record {
    Claims,
    Request,
    Ledger,
    Endpoint,
    Response,
}

/// The type of a record field.
#[derive(Clone, Copy, PartialEq, Eq, Structural)]
pub enum Kind {
    Text,
    OptText,
    TextList,
    Id,
    Claims,
    OptClaims,
    Ledger,
    Endpoint,
}

pub open spec fn record_name(r: Record) -> Seq<char> {
    match r {
        Record::Claims => "ActorClaims"@,
        Record::Request => "ActorRequest"@,
        Record::Ledger => "ResponseLedger"@,
        Record::Endpoint => "ResponseEndpoint"@,
        Record::Response => "ActorResponse"@,
    }
}

/// The fields of each record, in declaration order.
pub open spec fn record_fields(r: Record) -> Seq<(Seq<char>, Kind)> {
    match r {
        Record::Claims => seq![
            ("display_name"@, Kind::OptText),
            ("alias"@, Kind::OptText),
            ("actor_type"@, Kind::OptText),
        ],
        Record::Request => seq![
            ("schema"@, Kind::Text),
            ("actor"@, Kind::Id),
            ("claims"@, Kind::Claims),
            ("requests"@, Kind::TextList),
            ("bundle"@, Kind::Text),
        ],
        Record::Ledger => seq![
            ("id"@, Kind::Id),
            ("genesis_hash"@, Kind::Text),
            ("namespace"@, Kind::Text),
        ],
        Record::Endpoint => seq![
            ("schema"@, Kind::Text),
            ("url"@, Kind::Text),
            ("ledger_id"@, Kind::Text),
            ("genesis_hash"@, Kind::Text),
            ("token"@, Kind::OptText),
        ],
        Record::Response => seq![
            ("schema"@, Kind::Text),
            ("outcome"@, Kind::Text),
            ("actor"@, Kind::Id),
            ("claims"@, Kind::OptClaims),
            ("ledger"@, Kind::Ledger),
            ("granted"@, Kind::TextList),
            ("endpoint"@, Kind::Endpoint),
            ("in_reply_to"@, Kind::Text),
            ("bundle"@, Kind::Text),
        ],
    }
}

/// A decoded field value.
pub enum FieldView {
    Text(Seq<char>),
    OptText(Option<Seq<char>>),
    TextList(Seq<Seq<char>>),
    Id(u128),
    Claims(ClaimsView),
    OptClaims(Option<ClaimsView>),
    Ledger(LedgerView),
    Endpoint(EndpointView),
}

/// A decoded field value, in executable form.
pub enum Field {
    Text(String),
    OptText(Option<String>),
    TextList(Vec<String>),
    Id(u128),
    Claims(ActorClaims),
    OptClaims(Option<ActorClaims>),
    Ledger(ResponseLedger),
    Endpoint(ResponseEndpoint),
}

impl Field {
    pub open spec fn field_view(self) -> FieldView {
        match self {
            Field::Text(s) => FieldView::Text(s@),
            Field::OptText(o) => FieldView::OptText(opt_text(o)),
            Field::TextList(l) => FieldView::TextList(texts(l@)),
            Field::Id(u) => FieldView::Id(u),
            Field::Claims(c) => FieldView::Claims(c@),
            Field::OptClaims(o) => FieldView::OptClaims(opt_claims(o)),
            Field::Ledger(l) => FieldView::Ledger(l@),
            Field::Endpoint(e) => FieldView::Endpoint(e@),
        }
    }
}

/// A number's text is an integer: digits, after an optional minus sign.
pub open spec fn integer_text(t: Seq<char>) -> bool {
    forall|i: int|
        0 <= i < t.len() ==> ('0' <= #[trigger] t[i] <= '9' || (i == 0 && t[i] == '-'))
}

/// How serde describes a value it did not expect.
pub open spec fn unexpected(v: JsonValue) -> Seq<char> {
    match v {
        JsonValue::Null => "unit value"@,
        JsonValue::Bool(b) => if b {
            "boolean `true`"@
        } else {
            "boolean `false`"@
        },
        JsonValue::Number(t) => if integer_text(t) {
            "integer `"@ + t + "`"@
        } else {
            "floating point `"@ + t + "`"@
        },
        JsonValue::Str(s) => "string "@ + debug_text(s),
        JsonValue::Array(_) => "sequence"@,
        JsonValue::Object(_) => "map"@,
    }
}

pub open spec fn invalid_type(v: JsonValue, expected: Seq<char>) -> Seq<char> {
    "invalid type: "@ + unexpected(v) + ", expected "@ + expected
}

/// A string value.
pub open spec fn text_spec(v: JsonValue) -> Result<Seq<char>, Seq<char>> {
    match v {
        JsonValue::Str(s) => Ok(s),
        _ => Err(invalid_type(v, "a string"@)),
    }
}

/// The strings of an array, or the first element that is not a string.
pub open spec fn text_list_spec(items: Seq<JsonValue>) -> Result<Seq<Seq<char>>, Seq<char>>
    decreases items.len(),
{
    if items.len() == 0 {
        Ok(Seq::empty())
    } else {
        match text_spec(items[0]) {
            Err(e) => Err(e),
            Ok(s) => match text_list_spec(items.drop_first()) {
                Err(e) => Err(e),
                Ok(rest) => Ok(seq![s] + rest),
            },
        }
    }
}

pub open spec fn opt_of(f: FieldView) -> Option<Seq<char>> {
    match f {
        FieldView::OptText(o) => o,
        _ => None,
    }
}

pub open spec fn text_of(f: FieldView) -> Seq<char> {
    match f {
        FieldView::Text(s) => s,
        _ => Seq::empty(),
    }
}

pub open spec fn list_of(f: FieldView) -> Seq<Seq<char>> {
    match f {
        FieldView::TextList(l) => l,
        _ => Seq::empty(),
    }
}

pub open spec fn id_of(f: FieldView) -> u128 {
    match f {
        FieldView::Id(u) => u,
        _ => 0,
    }
}

pub open spec fn claims_from(fs: Seq<FieldView>) -> ClaimsView {
    ClaimsView { display_name: opt_of(fs[0]), alias: opt_of(fs[1]), actor_type: opt_of(fs[2]) }
}

pub open spec fn ledger_from(fs: Seq<FieldView>) -> LedgerView {
    LedgerView { id: id_of(fs[0]), genesis_hash: text_of(fs[1]), namespace: text_of(fs[2]) }
}

pub open spec fn endpoint_from(fs: Seq<FieldView>) -> EndpointView {
    EndpointView {
        schema: text_of(fs[0]),
        url: text_of(fs[1]),
        ledger_id: text_of(fs[2]),
        genesis_hash: text_of(fs[3]),
        token: opt_of(fs[4]),
    }
}

pub open spec fn request_from(fs: Seq<FieldView>) -> RequestView {
    RequestView {
        schema: text_of(fs[0]),
        actor: id_of(fs[1]),
        claims: match fs[2] {
            FieldView::Claims(c) => c,
            _ => ClaimsView { display_name: None, alias: None, actor_type: None },
        },
        requests: list_of(fs[3]),
        bundle: text_of(fs[4]),
    }
}

pub open spec fn response_from(fs: Seq<FieldView>) -> ResponseView {
    ResponseView {
        schema: text_of(fs[0]),
        outcome: text_of(fs[1]),
        actor: id_of(fs[2]),
        claims: match fs[3] {
            FieldView::OptClaims(c) => c,
            _ => None,
        },
        ledger: match fs[4] {
            FieldView::Ledger(l) => l,
            _ => LedgerView { id: 0, genesis_hash: Seq::empty(), namespace: Seq::empty() },
        },
        granted: list_of(fs[5]),
        endpoint: match fs[6] {
            FieldView::Endpoint(e) => e,
            _ => EndpointView {
                schema: Seq::empty(),
                url: Seq::empty(),
                ledger_id: Seq::empty(),
                genesis_hash: Seq::empty(),
                token: None,
            },
        },
        in_reply_to: text_of(fs[7]),
        bundle: text_of(fs[8]),
    }
}

/// The position of the field named `key`.
pub open spec fn field_index(fields: Seq<(Seq<char>, Kind)>, key: Seq<char>) -> Option<int>
    decreases fields.len(),
{
    if fields.len() == 0 {
        None
    } else if fields[0].0 == key {
        Some(0)
    } else {
        match field_index(fields.drop_first(), key) {
            Some(i) => Some(i + 1),
            None => None,
        }
    }
}

/// Decoding one field value of the given kind.
pub open spec fn decode_field_spec(k: Kind, v: JsonValue) -> Result<FieldView, Seq<char>>
    decreases v, 2nat,
{
    match k {
        Kind::Text => match text_spec(v) {
            Ok(s) => Ok(FieldView::Text(s)),
            Err(e) => Err(e),
        },
        Kind::OptText => match v {
            JsonValue::Null => Ok(FieldView::OptText(None)),
            _ => match text_spec(v) {
                Ok(s) => Ok(FieldView::OptText(Some(s))),
                Err(e) => Err(e),
            },
        },
        Kind::TextList => match v {
            JsonValue::Array(items) => match text_list_spec(items) {
                Ok(l) => Ok(FieldView::TextList(l)),
                Err(e) => Err(e),
            },
            _ => Err(invalid_type(v, "a sequence"@)),
        },
        Kind::Id => match v {
            JsonValue::Str(s) => match uuid_parse_spec(encode_utf8(s)) {
                Some(u) => Ok(FieldView::Id(u)),
                None => Err("UUID parsing failed: "@ + uuid_parse_error_text(s)),
            },
            _ => Err(invalid_type(v, "a formatted UUID string"@)),
        },
        Kind::Claims => match decode_record_spec(Record::Claims, v) {
            Ok(fs) => Ok(FieldView::Claims(claims_from(fs))),
            Err(e) => Err(e),
        },
        Kind::OptClaims => match v {
            JsonValue::Null => Ok(FieldView::OptClaims(None)),
            _ => match decode_record_spec(Record::Claims, v) {
                Ok(fs) => Ok(FieldView::OptClaims(Some(claims_from(fs)))),
                Err(e) => Err(e),
            },
        },
        Kind::Ledger => match decode_record_spec(Record::Ledger, v) {
            Ok(fs) => Ok(FieldView::Ledger(ledger_from(fs))),
            Err(e) => Err(e),
        },
        Kind::Endpoint => match decode_record_spec(Record::Endpoint, v) {
            Ok(fs) => Ok(FieldView::Endpoint(endpoint_from(fs))),
            Err(e) => Err(e),
        },
    }
}

/// Decoding the members of an object from the `i`-th on, into the field
/// slots: in document order, unknown names skipped, a repeated field refused.
pub open spec fn walk_members(
    r: Record,
    ms: Seq<(Seq<char>, JsonValue)>,
    i: int,
    slots: Seq<Option<FieldView>>,
) -> Result<Seq<Option<FieldView>>, Seq<char>>
    decreases ms, ms.len() - i,
{
    if i < 0 || i >= ms.len() {
        Ok(slots)
    } else {
        match field_index(record_fields(r), ms[i].0) {
            None => walk_members(r, ms, i + 1, slots),
            Some(f) => if 0 <= f < slots.len() && slots[f] is Some {
                Err("duplicate field `"@ + record_fields(r)[f].0 + "`"@)
            } else {
                match decode_field_spec(record_fields(r)[f].1, ms[i].1) {
                    Err(e) => Err(e),
                    Ok(x) => walk_members(r, ms, i + 1, slots.update(f, Some(x))),
                }
            },
        }
    }
}

/// Decoding the elements of an array as the fields from the `i`-th on.
pub open spec fn positional(r: Record, items: Seq<JsonValue>, i: int) -> Result<
    Seq<FieldView>,
    Seq<char>,
>
    decreases items, record_fields(r).len() - i,
{
    let n = record_fields(r).len();
    if i < 0 || i >= n {
        if items.len() > n {
            Err(
                "invalid length "@ + decimal(items.len()) + ", expected fewer elements in array"@,
            )
        } else {
            Ok(Seq::empty())
        }
    } else if i >= items.len() {
        Err(
            "invalid length "@ + decimal(i as nat) + ", expected struct "@ + record_name(r)
                + " with "@ + decimal(n) + " elements"@,
        )
    } else {
        match decode_field_spec(record_fields(r)[i].1, items[i]) {
            Err(e) => Err(e),
            Ok(x) => match positional(r, items, i + 1) {
                Err(e) => Err(e),
                Ok(rest) => Ok(seq![x] + rest),
            },
        }
    }
}

/// The fields from the `i`-th on once all members are read: an absent
/// optional field is `None`, an absent required field is an error.
pub open spec fn finish(r: Record, slots: Seq<Option<FieldView>>, i: int) -> Result<
    Seq<FieldView>,
    Seq<char>,
>
    decreases slots.len() - i,
{
    if i < 0 || i >= slots.len() {
        Ok(Seq::empty())
    } else {
        let here = match slots[i] {
            Some(x) => Ok(x),
            None => match record_fields(r)[i].1 {
                Kind::OptText => Ok(FieldView::OptText(None)),
                Kind::OptClaims => Ok(FieldView::OptClaims(None)),
                _ => Err("missing field `"@ + record_fields(r)[i].0 + "`"@),
            },
        };
        match here {
            Err(e) => Err(e),
            Ok(x) => match finish(r, slots, i + 1) {
                Err(e) => Err(e),
                Ok(rest) => Ok(seq![x] + rest),
            },
        }
    }
}

/// Decoding a record: from an object by member names, from an array by
/// position, and nothing else.
pub open spec fn decode_record_spec(r: Record, v: JsonValue) -> Result<Seq<FieldView>, Seq<char>>
    decreases v, 1nat,
{
    match v {
        JsonValue::Object(ms) => match walk_members(
            r,
            ms,
            0,
            Seq::new(record_fields(r).len(), |k: int| None),
        ) {
            Err(e) => Err(e),
            Ok(slots) => finish(r, slots, 0),
        },
        JsonValue::Array(items) => positional(r, items, 0),
        _ => Err(invalid_type(v, "struct "@ + record_name(r))),
    }
}

fn record_title(r: Record) -> (s: &'static str)
    ensures
        s@ == record_name(r),
{
    match r {
        Record::Claims => "ActorClaims",
        Record::Request => "ActorRequest",
        Record::Ledger => "ResponseLedger",
        Record::Endpoint => "ResponseEndpoint",
        Record::Response => "ActorResponse",
    }
}

fn field_count(r: Record) -> (n: usize)
    ensures
        n == record_fields(r).len(),
{
    match r {
        Record::Claims => 3,
        Record::Request => 5,
        Record::Ledger => 3,
        Record::Endpoint => 5,
        Record::Response => 9,
    }
}

fn field_name(r: Record, i: usize) -> (s: &'static str)
    requires
        i < record_fields(r).len(),
    ensures
        s@ == record_fields(r)[i as int].0,
{
    match r {
        Record::Claims => if i == 0 {
            "display_name"
        } else if i == 1 {
            "alias"
        } else {
            "actor_type"
        },
        Record::Request => if i == 0 {
            "schema"
        } else if i == 1 {
            "actor"
        } else if i == 2 {
            "claims"
        } else if i == 3 {
            "requests"
        } else {
            "bundle"
        },
        Record::Ledger => if i == 0 {
            "id"
        } else if i == 1 {
            "genesis_hash"
        } else {
            "namespace"
        },
        Record::Endpoint => if i == 0 {
            "schema"
        } else if i == 1 {
            "url"
        } else if i == 2 {
            "ledger_id"
        } else if i == 3 {
            "genesis_hash"
        } else {
            "token"
        },
        Record::Response => if i == 0 {
            "schema"
        } else if i == 1 {
            "outcome"
        } else if i == 2 {
            "actor"
        } else if i == 3 {
            "claims"
        } else if i == 4 {
            "ledger"
        } else if i == 5 {
            "granted"
        } else if i == 6 {
            "endpoint"
        } else if i == 7 {
            "in_reply_to"
        } else {
            "bundle"
        },
    }
}

fn field_kind(r: Record, i: usize) -> (k: Kind)
    requires
        i < record_fields(r).len(),
    ensures
        k == record_fields(r)[i as int].1,
{
    match r {
        Record::Claims => Kind::OptText,
        Record::Request => if i == 1 {
            Kind::Id
        } else if i == 2 {
            Kind::Claims
        } else if i == 3 {
            Kind::TextList
        } else {
            Kind::Text
        },
        Record::Ledger => if i == 0 {
            Kind::Id
        } else {
            Kind::Text
        },
        Record::Endpoint => if i == 4 {
            Kind::OptText
        } else {
            Kind::Text
        },
        Record::Response => if i == 2 {
            Kind::Id
        } else if i == 3 {
            Kind::OptClaims
        } else if i == 4 {
            Kind::Ledger
        } else if i == 5 {
            Kind::TextList
        } else if i == 6 {
            Kind::Endpoint
        } else {
            Kind::Text
        },
    }
}

proof fn lemma_field_index(fields: Seq<(Seq<char>, Kind)>, key: Seq<char>)
    ensures
        match field_index(fields, key) {
            Some(i) => 0 <= i < fields.len() && fields[i].0 == key && forall|j: int|
                0 <= j < i ==> #[trigger] fields[j].0 != key,
            None => forall|j: int| 0 <= j < fields.len() ==> #[trigger] fields[j].0 != key,
        },
    decreases fields.len(),
{
    if fields.len() > 0 {
        lemma_field_index(fields.drop_first(), key);
        assert forall|j: int| 1 <= j < fields.len() implies #[trigger] fields[j] == fields.drop_first()[j
            - 1] by {}
    }
}

fn field_position(r: Record, key: &str) -> (p: Option<usize>)
    ensures
        p matches Some(i) ==> i < record_fields(r).len(),
        match p {
            Some(i) => field_index(record_fields(r), key@) == Some(i as int),
            None => field_index(record_fields(r), key@) is None,
        },
{
    let n = field_count(r);
    proof {
        lemma_field_index(record_fields(r), key@);
    }
    let mut i: usize = 0;
    while i < n
        invariant
            n == record_fields(r).len(),
            i <= n,
            forall|j: int| 0 <= j < i ==> #[trigger] record_fields(r)[j].0 != key@,
            match field_index(record_fields(r), key@) {
                Some(x) => 0 <= x < n && record_fields(r)[x].0 == key@ && forall|j: int|
                    0 <= j < x ==> #[trigger] record_fields(r)[j].0 != key@,
                None => forall|j: int| 0 <= j < n ==> #[trigger] record_fields(r)[j].0 != key@,
            },
        decreases n - i,
    {
        if str_eq(field_name(r, i), key) {
            return Some(i);
        }
        i = i + 1;
    }
    None
}

fn is_integer_text(t: &str) -> (r: bool)
    ensures
        r == integer_text(t@),
{
    let cs = crate::text::chars_of(t);
    let mut i: usize = 0;
    while i < cs.len()
        invariant
            cs@ == t@,
            i <= cs@.len(),
            forall|j: int|
                0 <= j < i ==> ('0' <= #[trigger] cs@[j] <= '9' || (j == 0 && cs@[j] == '-')),
        decreases cs@.len() - i,
    {
        let c = cs[i];
        if !((c >= '0' && c <= '9') || (i == 0 && c == '-')) {
            return false;
        }
        i = i + 1;
    }
    true
}

fn concat3(a: &str, b: &str, c: &str) -> (s: String)
    ensures
        s@ == a@ + b@ + c@,
{
    let mut s = concat(a, b);
    push_str(&mut s, c);
    s
}

/// How serde describes a value it did not expect.
pub fn unexpected_text(v: &Json) -> (s: String)
    ensures
        s@ == unexpected(v@),
{
    match v {
        Json::Null => "unit value".to_owned(),
        Json::Bool(b) => if *b {
            "boolean `true`".to_owned()
        } else {
            "boolean `false`".to_owned()
        },
        Json::Number(t) => if is_integer_text(t.as_str()) {
            concat3("integer `", t.as_str(), "`")
        } else {
            concat3("floating point `", t.as_str(), "`")
        },
        Json::Str(s) => {
            let quoted = debug_quoted(s.as_str());
            concat("string ", quoted.as_str())
        },
        Json::Array(_) => "sequence".to_owned(),
        Json::Object(_) => "map".to_owned(),
    }
}

fn invalid_type_text(v: &Json, expected: &str) -> (s: String)
    ensures
        s@ == invalid_type(v@, expected@),
{
    let u = unexpected_text(v);
    let mut s = concat("invalid type: ", u.as_str());
    push_str(&mut s, ", expected ");
    push_str(&mut s, expected);
    s
}

fn text_value(v: &Json) -> (r: Result<String, String>)
    ensures
        match r {
            Ok(s) => text_spec(v@) == Ok::<Seq<char>, Seq<char>>(s@),
            Err(e) => text_spec(v@) == Err::<Seq<char>, Seq<char>>(e@),
        },
{
    match v {
        Json::Str(s) => Ok(s.clone()),
        _ => Err(invalid_type_text(v, "a string")),
    }
}

pub open spec fn list_result(r: Result<Vec<String>, String>) -> Result<Seq<Seq<char>>, Seq<char>> {
    match r {
        Ok(l) => Ok(texts(l@)),
        Err(e) => Err(e@),
    }
}

fn text_list(v: &Json, items: &Vec<Json>) -> (r: Result<Vec<String>, String>)
    requires
        *v == Json::Array(*items),
    ensures
        list_result(r) == text_list_spec(array_items(v@)),
{
    proof {
        lemma_array_value(v, items);
    }
    let ghost all = array_items(v@);
    let mut out: Vec<String> = Vec::new();
    let mut i: usize = 0;
    assert(all.skip(0) =~= all);
    while i < items.len()
        invariant
            i <= items@.len(),
            all == array_items(v@),
            all.len() == items@.len(),
            forall|k: int| 0 <= k < items@.len() ==> #[trigger] all[k] == items@[k]@,
            text_list_spec(all) == match text_list_spec(all.skip(i as int)) {
                Ok(rest) => Ok(texts(out@) + rest),
                Err(e) => Err(e),
            },
        decreases items@.len() - i,
    {
        assert(all.skip(i as int).drop_first() =~= all.skip(i + 1));
        assert(all.skip(i as int)[0] == items@[i as int]@);
        let s = match text_value(&items[i]) {
            Ok(s) => s,
            Err(e) => {
                return Err(e);
            },
        };
        proof {
            assert(texts(out@.push(s)) =~= texts(out@) + seq![s@]);
            assert(forall|rest: Seq<Seq<char>>|
                texts(out@) + (seq![s@] + rest) =~= texts(out@.push(s)) + rest);
        }
        out.push(s);
        i = i + 1;
    }
    assert(all.skip(i as int) =~= Seq::<JsonValue>::empty());
    assert(texts(out@) + Seq::<Seq<char>>::empty() =~= texts(out@));
    Ok(out)
}

pub open spec fn field_result(r: Result<Field, String>) -> Result<FieldView, Seq<char>> {
    match r {
        Ok(f) => Ok(f.field_view()),
        Err(e) => Err(e@),
    }
}

pub open spec fn views(fs: Seq<Field>) -> Seq<FieldView> {
    fs.map_values(|f: Field| f.field_view())
}

pub open spec fn fields_result(r: Result<Vec<Field>, String>) -> Result<Seq<FieldView>, Seq<char>> {
    match r {
        Ok(fs) => Ok(views(fs@)),
        Err(e) => Err(e@),
    }
}

pub open spec fn slots_view(s: Seq<Option<Field>>) -> Seq<Option<FieldView>> {
    s.map_values(
        |o: Option<Field>|
            match o {
                Some(f) => Some(f.field_view()),
                None => None,
            },
    )
}

fn take_first(fs: &mut Vec<Field>) -> (f: Field)
    requires
        old(fs)@.len() > 0,
    ensures
        f == old(fs)@[0],
        final(fs)@ == old(fs)@.drop_first(),
{
    let f = fs.remove(0);
    assert(fs@ =~= old(fs)@.drop_first());
    f
}

fn opt_text_field(f: Field) -> (o: Option<String>)
    ensures
        opt_text(o) == opt_of(f.field_view()),
{
    match f {
        Field::OptText(o) => o,
        _ => None,
    }
}

fn text_field(f: Field) -> (s: String)
    ensures
        s@ == text_of(f.field_view()),
{
    match f {
        Field::Text(s) => s,
        _ => String::new(),
    }
}

fn list_field(f: Field) -> (l: Vec<String>)
    ensures
        texts(l@) == list_of(f.field_view()),
{
    match f {
        Field::TextList(l) => l,
        _ => {
            let l: Vec<String> = Vec::new();
            assert(texts(l@) =~= Seq::<Seq<char>>::empty());
            l
        },
    }
}

fn id_field(f: Field) -> (u: u128)
    ensures
        u == id_of(f.field_view()),
{
    match f {
        Field::Id(u) => u,
        _ => 0,
    }
}

fn claims_of_fields(fs: Vec<Field>) -> (c: ActorClaims)
    requires
        fs@.len() == 3,
    ensures
        c@ == claims_from(views(fs@)),
{
    let ghost all = fs@;
    let mut fs = fs;
    let display_name = opt_text_field(take_first(&mut fs));
    let alias = opt_text_field(take_first(&mut fs));
    let actor_type = opt_text_field(take_first(&mut fs));
    ActorClaims { display_name, alias, actor_type }
}

fn ledger_of_fields(fs: Vec<Field>) -> (l: ResponseLedger)
    requires
        fs@.len() == 3,
    ensures
        l@ == ledger_from(views(fs@)),
{
    let mut fs = fs;
    let id = id_field(take_first(&mut fs));
    let genesis_hash = text_field(take_first(&mut fs));
    let namespace = text_field(take_first(&mut fs));
    ResponseLedger { id, genesis_hash, namespace }
}

fn endpoint_of_fields(fs: Vec<Field>) -> (e: ResponseEndpoint)
    requires
        fs@.len() == 5,
    ensures
        e@ == endpoint_from(views(fs@)),
{
    let mut fs = fs;
    let schema = text_field(take_first(&mut fs));
    let url = text_field(take_first(&mut fs));
    let ledger_id = text_field(take_first(&mut fs));
    let genesis_hash = text_field(take_first(&mut fs));
    let token = opt_text_field(take_first(&mut fs));
    ResponseEndpoint { schema, url, ledger_id, genesis_hash, token }
}

fn decode_field(k: Kind, v: &Json) -> (r: Result<Field, String>)
    ensures
        field_result(r) == decode_field_spec(k, v@),
    decreases v, 2nat,
{
    match k {
        Kind::Text => match text_value(v) {
            Ok(s) => Ok(Field::Text(s)),
            Err(e) => Err(e),
        },
        Kind::OptText => match v {
            Json::Null => Ok(Field::OptText(None)),
            _ => match text_value(v) {
                Ok(s) => Ok(Field::OptText(Some(s))),
                Err(e) => Err(e),
            },
        },
        Kind::TextList => match v {
            Json::Array(items) => match text_list(v, items) {
                Ok(l) => Ok(Field::TextList(l)),
                Err(e) => Err(e),
            },
            _ => Err(invalid_type_text(v, "a sequence")),
        },
        Kind::Id => match v {
            Json::Str(s) => match parse_uuid_text(s.as_str()) {
                Ok(u) => Ok(Field::Id(u)),
                Err(e) => Err(concat("UUID parsing failed: ", e.as_str())),
            },
            _ => Err(invalid_type_text(v, "a formatted UUID string")),
        },
        Kind::Claims => match decode_record(Record::Claims, v) {
            Ok(fs) => Ok(Field::Claims(claims_of_fields(fs))),
            Err(e) => Err(e),
        },
        Kind::OptClaims => match v {
            Json::Null => Ok(Field::OptClaims(None)),
            _ => match decode_record(Record::Claims, v) {
                Ok(fs) => Ok(Field::OptClaims(Some(claims_of_fields(fs)))),
                Err(e) => Err(e),
            },
        },
        Kind::Ledger => match decode_record(Record::Ledger, v) {
            Ok(fs) => Ok(Field::Ledger(ledger_of_fields(fs))),
            Err(e) => Err(e),
        },
        Kind::Endpoint => match decode_record(Record::Endpoint, v) {
            Ok(fs) => Ok(Field::Endpoint(endpoint_of_fields(fs))),
            Err(e) => Err(e),
        },
    }
}

fn duplicate_text(r: Record, f: usize) -> (s: String)
    requires
        f < record_fields(r).len(),
    ensures
        s@ == "duplicate field `"@ + record_fields(r)[f as int].0 + "`"@,
{
    concat3("duplicate field `", field_name(r, f), "`")
}

fn missing_text(r: Record, f: usize) -> (s: String)
    requires
        f < record_fields(r).len(),
    ensures
        s@ == "missing field `"@ + record_fields(r)[f as int].0 + "`"@,
{
    concat3("missing field `", field_name(r, f), "`")
}

/// Decodes the fields of a record from an object, by member name.
fn decode_members(r: Record, v: &Json, members: &Vec<(String, Json)>) -> (res: Result<
    Vec<Field>,
    String,
>)
    requires
        *v == Json::Object(*members),
    ensures
        fields_result(res) == decode_record_spec(r, v@),
        res matches Ok(fs) ==> fs@.len() == record_fields(r).len(),
    decreases v, 0nat,
{
    proof {
        lemma_object_value(v, members);
    }
    let ghost ms = object_members(v@);
    let n = field_count(r);
    let mut slots: Vec<Option<Field>> = Vec::new();
    let mut k: usize = 0;
    while k < n
        invariant
            k <= n,
            slots@.len() == k,
            forall|j: int| 0 <= j < k ==> #[trigger] slots@[j] is None,
        decreases n - k,
    {
        slots.push(None);
        k = k + 1;
    }
    let ghost init = slots_view(slots@);
    assert(init =~= Seq::new(record_fields(r).len(), |j: int| None));
    let mut i: usize = 0;
    while i < members.len()
        invariant
            ms == object_members(v@),
            v@ == JsonValue::Object(ms),
            *v == Json::Object(*members),
            ms.len() == members@.len(),
            forall|j: int| 0 <= j < members@.len() ==> #[trigger] ms[j] == (members@[j].0@, members@[j].1@),
            n == record_fields(r).len(),
            slots@.len() == n,
            i <= members@.len(),
            init == Seq::new(record_fields(r).len(), |j: int| None::<FieldView>),
            walk_members(r, ms, 0, init) == walk_members(r, ms, i as int, slots_view(slots@)),
        decreases members@.len() - i,
    {
        match field_position(r, members[i].0.as_str()) {
            None => {},
            Some(f) => {
                if slots[f].is_some() {
                    return Err(duplicate_text(r, f));
                }
                proof {
                    assert(decreases_to!(*v => members));
                    assert(decreases_to!(members => members@));
                    assert(decreases_to!(members@ => members@[i as int]));
                    assert(decreases_to!(members@[i as int] => members@[i as int].1));
                }
                let x = match decode_field(field_kind(r, f), &members[i].1) {
                    Ok(x) => x,
                    Err(e) => {
                        return Err(e);
                    },
                };
                let ghost before = slots@;
                slots[f] = Some(x);
                proof {
                    assert(slots_view(slots@) =~= slots_view(before).update(
                        f as int,
                        Some(x.field_view()),
                    ));
                }
            },
        }
        i = i + 1;
    }
    let ghost filled = slots_view(slots@);
    assert(walk_members(r, ms, 0, init) == Ok::<Seq<Option<FieldView>>, Seq<char>>(filled));
    let mut out: Vec<Field> = Vec::new();
    let mut k: usize = 0;
    assert(slots@ =~= slots@.skip(0));
    let ghost original = slots@;
    while k < n
        invariant
            n == record_fields(r).len(),
            v@ == JsonValue::Object(ms),
            init == Seq::new(record_fields(r).len(), |j: int| None::<FieldView>),
            walk_members(r, ms, 0, init) == Ok::<Seq<Option<FieldView>>, Seq<char>>(filled),
            original.len() == n,
            filled == slots_view(original),
            k <= n,
            slots@ == original.skip(k as int),
            out@.len() == k,
            finish(r, filled, 0) == match finish(r, filled, k as int) {
                Ok(rest) => Ok(views(out@) + rest),
                Err(e) => Err(e),
            },
        decreases n - k,
    {
        let slot = slots.remove(0);
        assert(slot == original[k as int]);
        assert(slots@ =~= original.skip(k + 1));
        assert(filled[k as int] == match slot {
            Some(f) => Some(f.field_view()),
            None => None,
        });
        let x = match slot {
            Some(x) => x,
            None => {
                let kind = field_kind(r, k);
                if kind == Kind::OptText {
                    Field::OptText(None)
                } else if kind == Kind::OptClaims {
                    Field::OptClaims(None)
                } else {
                    return Err(missing_text(r, k));
                }
            },
        };
        proof {
            assert(views(out@.push(x)) =~= views(out@) + seq![x.field_view()]);
            assert(forall|rest: Seq<FieldView>|
                views(out@) + (seq![x.field_view()] + rest) =~= views(out@.push(x)) + rest);
        }
        out.push(x);
        k = k + 1;
    }
    assert(views(out@) + Seq::<FieldView>::empty() =~= views(out@));
    Ok(out)
}

/// Decodes the fields of a record from an array, by position.
fn decode_positional(r: Record, v: &Json, items: &Vec<Json>) -> (res: Result<Vec<Field>, String>)
    requires
        *v == Json::Array(*items),
    ensures
        fields_result(res) == decode_record_spec(r, v@),
        res matches Ok(fs) ==> fs@.len() == record_fields(r).len(),
    decreases v, 0nat,
{
    proof {
        lemma_array_value(v, items);
    }
    let ghost all = array_items(v@);
    let n = field_count(r);
    let mut out: Vec<Field> = Vec::new();
    let mut i: usize = 0;
    while i < n
        invariant
            all == array_items(v@),
            v@ == JsonValue::Array(all),
            *v == Json::Array(*items),
            all.len() == items@.len(),
            forall|j: int| 0 <= j < items@.len() ==> #[trigger] all[j] == items@[j]@,
            n == record_fields(r).len(),
            i <= n,
            out@.len() == i,
            positional(r, all, 0) == match positional(r, all, i as int) {
                Ok(rest) => Ok(views(out@) + rest),
                Err(e) => Err(e),
            },
        decreases n - i,
    {
        if i >= items.len() {
            let mut m = concat("invalid length ", decimal_text(i).as_str());
            push_str(&mut m, ", expected struct ");
            push_str(&mut m, record_title(r));
            push_str(&mut m, " with ");
            push_str(&mut m, decimal_text(n).as_str());
            push_str(&mut m, " elements");
            return Err(m);
        }
        proof {
            assert(decreases_to!(*v => items));
            assert(decreases_to!(items => items@));
            assert(decreases_to!(items@ => items@[i as int]));
        }
        let x = match decode_field(field_kind(r, i), &items[i]) {
            Ok(x) => x,
            Err(e) => {
                return Err(e);
            },
        };
        proof {
            assert(views(out@.push(x)) =~= views(out@) + seq![x.field_view()]);
            assert(forall|rest: Seq<FieldView>|
                views(out@) + (seq![x.field_view()] + rest) =~= views(out@.push(x)) + rest);
        }
        out.push(x);
        i = i + 1;
    }
    if items.len() > n {
        let mut m = concat("invalid length ", decimal_text(items.len()).as_str());
        push_str(&mut m, ", expected fewer elements in array");
        return Err(m);
    }
    assert(views(out@) + Seq::<FieldView>::empty() =~= views(out@));
    Ok(out)
}

/// Decodes the fields of a record from an object or an array.
fn decode_record(r: Record, v: &Json) -> (res: Result<Vec<Field>, String>)
    ensures
        fields_result(res) == decode_record_spec(r, v@),
        res matches Ok(fs) ==> fs@.len() == record_fields(r).len(),
    decreases v, 1nat,
{
    match v {
        Json::Object(members) => decode_members(r, v, members),
        Json::Array(items) => decode_positional(r, v, items),
        _ => {
            let expected = concat("struct ", record_title(r));
            Err(invalid_type_text(v, expected.as_str()))
        },
    }
}

/// Decoding an [`ActorClaims`] record.
pub open spec fn claims_decode_spec(v: JsonValue) -> Result<ClaimsView, Seq<char>> {
    match decode_record_spec(Record::Claims, v) {
        Ok(fs) => Ok(claims_from(fs)),
        Err(e) => Err(e),
    }
}

/// Decoding an [`ActorRequest`] record.
pub open spec fn request_decode_spec(v: JsonValue) -> Result<RequestView, Seq<char>> {
    match decode_record_spec(Record::Request, v) {
        Ok(fs) => Ok(request_from(fs)),
        Err(e) => Err(e),
    }
}

/// Decoding an [`ActorResponse`] record.
pub open spec fn response_decode_spec(v: JsonValue) -> Result<ResponseView, Seq<char>> {
    match decode_record_spec(Record::Response, v) {
        Ok(fs) => Ok(response_from(fs)),
        Err(e) => Err(e),
    }
}

pub open spec fn claims_result(r: Result<ActorClaims, String>) -> Result<ClaimsView, Seq<char>> {
    match r {
        Ok(c) => Ok(c@),
        Err(e) => Err(e@),
    }
}

pub open spec fn request_result(r: Result<ActorRequest, String>) -> Result<RequestView, Seq<char>> {
    match r {
        Ok(c) => Ok(c@),
        Err(e) => Err(e@),
    }
}

pub open spec fn response_result(r: Result<ActorResponse, String>) -> Result<
    ResponseView,
    Seq<char>,
> {
    match r {
        Ok(c) => Ok(c@),
        Err(e) => Err(e@),
    }
}

/// Reads actor claims out of a JSON document.
pub fn decode_claims(v: &Json) -> (r: Result<ActorClaims, String>)
    ensures
        claims_result(r) == claims_decode_spec(v@),
{
    match decode_record(Record::Claims, v) {
        Ok(fs) => Ok(claims_of_fields(fs)),
        Err(e) => Err(e),
    }
}

/// Reads an actor request out of a JSON document.
pub fn decode_request(v: &Json) -> (r: Result<ActorRequest, String>)
    ensures
        request_result(r) == request_decode_spec(v@),
{
    match decode_record(Record::Request, v) {
        Ok(fs) => {
            let ghost all = views(fs@);
            let mut fs = fs;
            let schema = text_field(take_first(&mut fs));
            let actor = id_field(take_first(&mut fs));
            let claims = match take_first(&mut fs) {
                Field::Claims(c) => c,
                _ => ActorClaims { display_name: None, alias: None, actor_type: None },
            };
            let requests = list_field(take_first(&mut fs));
            let bundle = text_field(take_first(&mut fs));
            Ok(ActorRequest { schema, actor, claims, requests, bundle })
        },
        Err(e) => Err(e),
    }
}

/// Reads an actor response out of a JSON document.
pub fn decode_response(v: &Json) -> (r: Result<ActorResponse, String>)
    ensures
        response_result(r) == response_decode_spec(v@),
{
    match decode_record(Record::Response, v) {
        Ok(fs) => {
            let mut fs = fs;
            let schema = text_field(take_first(&mut fs));
            let outcome = text_field(take_first(&mut fs));
            let actor = id_field(take_first(&mut fs));
            let claims = match take_first(&mut fs) {
                Field::OptClaims(c) => c,
                _ => None,
            };
            let ledger = match take_first(&mut fs) {
                Field::Ledger(l) => l,
                _ => ResponseLedger { id: 0, genesis_hash: String::new(), namespace: String::new() },
            };
            let granted = list_field(take_first(&mut fs));
            let endpoint = match take_first(&mut fs) {
                Field::Endpoint(e) => e,
                _ => ResponseEndpoint {
                    schema: String::new(),
                    url: String::new(),
                    ledger_id: String::new(),
                    genesis_hash: String::new(),
                    token: None,
                },
            };
            let in_reply_to = text_field(take_first(&mut fs));
            let bundle = text_field(take_first(&mut fs));
            Ok(
                ActorResponse {
                    schema,
                    outcome,
                    actor,
                    claims,
                    ledger,
                    granted,
                    endpoint,
                    in_reply_to,
                    bundle,
                },
            )
        },
        Err(e) => Err(e),
    }
}

proof fn lemma_finish_full(r: Record, slots: Seq<Option<FieldView>>, xs: Seq<FieldView>, i: int)
    requires
        0 <= i <= slots.len(),
        slots.len() == xs.len(),
        slots.len() == record_fields(r).len(),
        forall|j: int| i <= j < slots.len() ==> #[trigger] slots[j] == Some(xs[j]),
    ensures
        finish(r, slots, i) == Ok::<Seq<FieldView>, Seq<char>>(xs.skip(i)),
    decreases slots.len() - i,
{
    if i < slots.len() {
        lemma_finish_full(r, slots, xs, i + 1);
        assert(seq![xs[i]] + xs.skip(i + 1) =~= xs.skip(i));
    } else {
        assert(xs.skip(i) =~= Seq::<FieldView>::empty());
    }
}

proof fn lemma_walk_in_order(
    r: Record,
    ms: Seq<(Seq<char>, JsonValue)>,
    xs: Seq<FieldView>,
    i: int,
    slots: Seq<Option<FieldView>>,
)
    requires
        0 <= i <= ms.len(),
        ms.len() == xs.len(),
        ms.len() == record_fields(r).len(),
        slots.len() == ms.len(),
        forall|j: int| 0 <= j < ms.len() ==> field_index(record_fields(r), #[trigger] ms[j].0) == Some(j),
        forall|j: int|
            0 <= j < ms.len() ==> decode_field_spec(record_fields(r)[j].1, #[trigger] ms[j].1)
                == Ok::<FieldView, Seq<char>>(xs[j]),
        forall|j: int| 0 <= j < i ==> #[trigger] slots[j] == Some(xs[j]),
        forall|j: int| i <= j < ms.len() ==> #[trigger] slots[j] is None,
    ensures
        walk_members(r, ms, i, slots) == Ok::<Seq<Option<FieldView>>, Seq<char>>(
            xs.map_values(|x: FieldView| Some(x)),
        ),
    decreases ms.len() - i,
{
    if i < ms.len() {
        let next = slots.update(i, Some(xs[i]));
        assert(ms[i].0 == ms[i].0);
        assert(field_index(record_fields(r), ms[i].0) == Some(i));
        assert(decode_field_spec(record_fields(r)[i].1, ms[i].1) == Ok::<FieldView, Seq<char>>(xs[i]));
        lemma_walk_in_order(r, ms, xs, i + 1, next);
    } else {
        assert(slots =~= xs.map_values(|x: FieldView| Some(x)));
    }
}

/// Reading an object whose members are a record's fields in declaration
/// order, each readable, gives those fields.
proof fn lemma_decode_in_order(r: Record, ms: Seq<(Seq<char>, JsonValue)>, xs: Seq<FieldView>)
    requires
        ms.len() == xs.len(),
        ms.len() == record_fields(r).len(),
        forall|j: int| 0 <= j < ms.len() ==> field_index(record_fields(r), #[trigger] ms[j].0) == Some(j),
        forall|j: int|
            0 <= j < ms.len() ==> decode_field_spec(record_fields(r)[j].1, #[trigger] ms[j].1)
                == Ok::<FieldView, Seq<char>>(xs[j]),
    ensures
        decode_record_spec(r, JsonValue::Object(ms)) == Ok::<Seq<FieldView>, Seq<char>>(xs),
{
    let none = Seq::new(record_fields(r).len(), |k: int| None::<FieldView>);
    lemma_walk_in_order(r, ms, xs, 0, none);
    let full = xs.map_values(|x: FieldView| Some(x));
    lemma_finish_full(r, full, xs, 0);
    assert(xs.skip(0) =~= xs);
}

proof fn lemma_field_index_at(fields: Seq<(Seq<char>, Kind)>, k: int, key: Seq<char>)
    requires
        0 <= k < fields.len(),
        fields[k].0 == key,
        forall|j: int| 0 <= j < k ==> #[trigger] fields[j].0 != key,
    ensures
        field_index(fields, key) == Some(k),
    decreases k,
{
    if k > 0 {
        assert forall|j: int| 0 <= j < k - 1 implies #[trigger] fields.drop_first()[j].0 != key by {
            assert(fields.drop_first()[j] == fields[j + 1]);
        }
        lemma_field_index_at(fields.drop_first(), k - 1, key);
        assert(fields[0].0 != key);
    }
}

proof fn lemma_text_list_of_strings(l: Seq<Seq<char>>)
    ensures
        text_list_spec(l.map_values(|s: Seq<char>| JsonValue::Str(s))) == Ok::<
            Seq<Seq<char>>,
            Seq<char>,
        >(l),
    decreases l.len(),
{
    let items = l.map_values(|s: Seq<char>| JsonValue::Str(s));
    if l.len() > 0 {
        assert(items[0] == JsonValue::Str(l[0]));
        assert(items.drop_first() =~= l.drop_first().map_values(|s: Seq<char>| JsonValue::Str(s)));
        lemma_text_list_of_strings(l.drop_first());
        assert(seq![l[0]] + l.drop_first() =~= l);
    } else {
        assert(items =~= Seq::<JsonValue>::empty());
        assert(l =~= Seq::<Seq<char>>::empty());
    }
}

proof fn lemma_opt_text_reads_back(o: Option<Seq<char>>)
    ensures
        decode_field_spec(Kind::OptText, opt_text_json(o)) == Ok::<FieldView, Seq<char>>(
            FieldView::OptText(o),
        ),
{
}

/// The JSON written for claims reads back as the same claims.
pub proof fn lemma_claims_read_back(c: ClaimsView)
    ensures
        decode_field_spec(Kind::Claims, claims_json(c)) == Ok::<FieldView, Seq<char>>(
            FieldView::Claims(c),
        ),
        claims_decode_spec(claims_json(c)) == Ok::<ClaimsView, Seq<char>>(c),
{
    reveal_strlit("display_name");
    reveal_strlit("alias");
    reveal_strlit("actor_type");
    let ms = seq![
        ("display_name"@, opt_text_json(c.display_name)),
        ("alias"@, opt_text_json(c.alias)),
        ("actor_type"@, opt_text_json(c.actor_type)),
    ];
    let xs = seq![
        FieldView::OptText(c.display_name),
        FieldView::OptText(c.alias),
        FieldView::OptText(c.actor_type),
    ];
    assert forall|j: int| 0 <= j < ms.len() implies field_index(
        record_fields(Record::Claims),
        #[trigger] ms[j].0,
    ) == Some(j) by {
        let f = record_fields(Record::Claims);
        assert forall|i: int| 0 <= i < j implies #[trigger] f[i].0 != ms[j].0 by {
            assert(f[i].0 == ms[i].0);
            assert(ms[i].0.len() != ms[j].0.len() || ms[i].0[0] != ms[j].0[0]);
        }
        lemma_field_index_at(f, j, ms[j].0);
    }
    assert forall|j: int| 0 <= j < ms.len() implies decode_field_spec(
        record_fields(Record::Claims)[j].1,
        #[trigger] ms[j].1,
    ) == Ok::<FieldView, Seq<char>>(xs[j]) by {
        lemma_opt_text_reads_back(c.display_name);
        lemma_opt_text_reads_back(c.alias);
        lemma_opt_text_reads_back(c.actor_type);
    }
    lemma_decode_in_order(Record::Claims, ms, xs);
    assert(claims_from(xs) == c);
}

/// The JSON written for a request reads back as the same request.
pub proof fn lemma_request_read_back(r: RequestView)
    ensures
        request_decode_spec(request_json_value(r)) == Ok::<RequestView, Seq<char>>(r),
{
    reveal_strlit("schema");
    reveal_strlit("actor");
    reveal_strlit("claims");
    reveal_strlit("requests");
    reveal_strlit("bundle");
    let ms = seq![
        ("schema"@, JsonValue::Str(r.schema)),
        ("actor"@, JsonValue::Str(uuid_hyphenated(r.actor))),
        ("claims"@, claims_json(r.claims)),
        ("requests"@, texts_json(r.requests)),
        ("bundle"@, JsonValue::Str(r.bundle)),
    ];
    let xs = seq![
        FieldView::Text(r.schema),
        FieldView::Id(r.actor),
        FieldView::Claims(r.claims),
        FieldView::TextList(r.requests),
        FieldView::Text(r.bundle),
    ];
    assert forall|j: int| 0 <= j < ms.len() implies field_index(
        record_fields(Record::Request),
        #[trigger] ms[j].0,
    ) == Some(j) by {
        let f = record_fields(Record::Request);
        assert forall|i: int| 0 <= i < j implies #[trigger] f[i].0 != ms[j].0 by {
            assert(f[i].0 == ms[i].0);
            assert(ms[i].0.len() != ms[j].0.len() || ms[i].0[0] != ms[j].0[0]);
        }
        lemma_field_index_at(f, j, ms[j].0);
    }
    assert forall|j: int| 0 <= j < ms.len() implies decode_field_spec(
        record_fields(Record::Request)[j].1,
        #[trigger] ms[j].1,
    ) == Ok::<FieldView, Seq<char>>(xs[j]) by {
        crate::ids::law_uuid_text_parses_back(r.actor);
        lemma_claims_read_back(r.claims);
        lemma_text_list_of_strings(r.requests);
    }
    lemma_decode_in_order(Record::Request, ms, xs);
    assert(request_from(xs) == r);
}

/// Whether a slot left empty reads as the field's absent value.
pub open spec fn absent_ok(k: Kind, x: FieldView) -> bool {
    (k == Kind::OptText && x == FieldView::OptText(None)) || (k == Kind::OptClaims && x
        == FieldView::OptClaims(None))
}

proof fn lemma_finish_slots(r: Record, slots: Seq<Option<FieldView>>, xs: Seq<FieldView>, i: int)
    requires
        0 <= i <= slots.len(),
        slots.len() == xs.len(),
        slots.len() == record_fields(r).len(),
        forall|j: int|
            i <= j < slots.len() ==> (#[trigger] slots[j] == Some(xs[j]) || (slots[j] is None
                && absent_ok(record_fields(r)[j].1, xs[j]))),
    ensures
        finish(r, slots, i) == Ok::<Seq<FieldView>, Seq<char>>(xs.skip(i)),
    decreases slots.len() - i,
{
    if i < slots.len() {
        lemma_finish_slots(r, slots, xs, i + 1);
        assert(seq![xs[i]] + xs.skip(i + 1) =~= xs.skip(i));
    } else {
        assert(xs.skip(i) =~= Seq::<FieldView>::empty());
    }
}

/// Walking members whose `j`-th is the field at `pos[j]` (positions
/// increasing), each readable, fills those slots and leaves the rest.
proof fn lemma_walk_at(
    r: Record,
    ms: Seq<(Seq<char>, JsonValue)>,
    pos: Seq<int>,
    vals: Seq<FieldView>,
    i: int,
    slots: Seq<Option<FieldView>>,
    target: Seq<Option<FieldView>>,
)
    requires
        0 <= i <= ms.len(),
        ms.len() == pos.len(),
        ms.len() == vals.len(),
        slots.len() == record_fields(r).len(),
        target.len() == slots.len(),
        forall|j: int| 0 <= j < ms.len() ==> 0 <= #[trigger] pos[j] < slots.len(),
        forall|a: int, b: int| 0 <= a < b < ms.len() ==> pos[a] < pos[b],
        forall|j: int|
            0 <= j < ms.len() ==> field_index(record_fields(r), #[trigger] ms[j].0) == Some(pos[j]),
        forall|j: int|
            0 <= j < ms.len() ==> decode_field_spec(record_fields(r)[pos[j]].1, #[trigger] ms[j].1)
                == Ok::<FieldView, Seq<char>>(vals[j]),
        forall|j: int| i <= j < ms.len() ==> #[trigger] slots[pos[j]] is None,
        forall|j: int| i <= j < ms.len() ==> #[trigger] target[pos[j]] == Some(vals[j]),
        forall|k: int|
            0 <= k < slots.len() && (forall|j: int| i <= j < ms.len() ==> #[trigger] pos[j] != k)
                ==> #[trigger] target[k] == slots[k],
    ensures
        walk_members(r, ms, i, slots) == Ok::<Seq<Option<FieldView>>, Seq<char>>(target),
    decreases ms.len() - i,
{
    if i < ms.len() {
        let next = slots.update(pos[i], Some(vals[i]));
        assert(ms[i].0 == ms[i].0);
        assert(field_index(record_fields(r), ms[i].0) == Some(pos[i]));
        assert(slots[pos[i]] is None);
        assert(decode_field_spec(record_fields(r)[pos[i]].1, ms[i].1) == Ok::<FieldView, Seq<char>>(
            vals[i],
        ));
        assert forall|j: int| i + 1 <= j < ms.len() implies #[trigger] next[pos[j]] is None by {
            assert(pos[i] < pos[j]);
        }
        assert forall|k: int|
            0 <= k < next.len() && (forall|j: int| i + 1 <= j < ms.len() ==> #[trigger] pos[j] != k)
                implies #[trigger] target[k] == next[k] by {
            if k == pos[i] {
            } else {
                assert forall|j: int| i <= j < ms.len() implies #[trigger] pos[j] != k by {
                    if j == i {
                    } else {
                    }
                }
            }
        }
        lemma_walk_at(r, ms, pos, vals, i + 1, next, target);
    } else {
        assert(slots =~= target);
    }
}

/// The JSON written for a ledger reads back as the same ledger.
proof fn lemma_ledger_read_back(l: LedgerView)
    ensures
        decode_field_spec(Kind::Ledger, ledger_json(l)) == Ok::<FieldView, Seq<char>>(
            FieldView::Ledger(l),
        ),
{
    reveal_strlit("id");
    reveal_strlit("genesis_hash");
    reveal_strlit("namespace");
    let ms = seq![
        ("id"@, JsonValue::Str(uuid_hyphenated(l.id))),
        ("genesis_hash"@, JsonValue::Str(l.genesis_hash)),
        ("namespace"@, JsonValue::Str(l.namespace)),
    ];
    let xs = seq![FieldView::Id(l.id), FieldView::Text(l.genesis_hash), FieldView::Text(l.namespace)];
    assert forall|j: int| 0 <= j < ms.len() implies field_index(
        record_fields(Record::Ledger),
        #[trigger] ms[j].0,
    ) == Some(j) by {
        let f = record_fields(Record::Ledger);
        assert forall|i: int| 0 <= i < j implies #[trigger] f[i].0 != ms[j].0 by {
            assert(f[i].0 == ms[i].0);
            assert(ms[i].0[0] != ms[j].0[0]);
        }
        lemma_field_index_at(f, j, ms[j].0);
    }
    assert forall|j: int| 0 <= j < ms.len() implies decode_field_spec(
        record_fields(Record::Ledger)[j].1,
        #[trigger] ms[j].1,
    ) == Ok::<FieldView, Seq<char>>(xs[j]) by {
        crate::ids::law_uuid_text_parses_back(l.id);
    }
    lemma_decode_in_order(Record::Ledger, ms, xs);
    assert(ledger_from(xs) == l);
}

/// The JSON written for an endpoint reads back as the same endpoint.
proof fn lemma_endpoint_read_back(e: EndpointView)
    ensures
        decode_field_spec(Kind::Endpoint, endpoint_json(e)) == Ok::<FieldView, Seq<char>>(
            FieldView::Endpoint(e),
        ),
{
    reveal_strlit("schema");
    reveal_strlit("url");
    reveal_strlit("ledger_id");
    reveal_strlit("genesis_hash");
    reveal_strlit("token");
    let ms = seq![
        ("schema"@, JsonValue::Str(e.schema)),
        ("url"@, JsonValue::Str(e.url)),
        ("ledger_id"@, JsonValue::Str(e.ledger_id)),
        ("genesis_hash"@, JsonValue::Str(e.genesis_hash)),
        ("token"@, opt_text_json(e.token)),
    ];
    let xs = seq![
        FieldView::Text(e.schema),
        FieldView::Text(e.url),
        FieldView::Text(e.ledger_id),
        FieldView::Text(e.genesis_hash),
        FieldView::OptText(e.token),
    ];
    assert forall|j: int| 0 <= j < ms.len() implies field_index(
        record_fields(Record::Endpoint),
        #[trigger] ms[j].0,
    ) == Some(j) by {
        let f = record_fields(Record::Endpoint);
        assert forall|i: int| 0 <= i < j implies #[trigger] f[i].0 != ms[j].0 by {
            assert(f[i].0 == ms[i].0);
            assert(ms[i].0[0] != ms[j].0[0]);
        }
        lemma_field_index_at(f, j, ms[j].0);
    }
    assert forall|j: int| 0 <= j < ms.len() implies decode_field_spec(
        record_fields(Record::Endpoint)[j].1,
        #[trigger] ms[j].1,
    ) == Ok::<FieldView, Seq<char>>(xs[j]) by {
        lemma_opt_text_reads_back(e.token);
    }
    lemma_decode_in_order(Record::Endpoint, ms, xs);
    assert(endpoint_from(xs) == e);
}

/// The member names of a response, in field order.
pub open spec fn response_names() -> Seq<Seq<char>> {
    seq![
        "schema"@,
        "outcome"@,
        "actor"@,
        "claims"@,
        "ledger"@,
        "granted"@,
        "endpoint"@,
        "in_reply_to"@,
        "bundle"@,
    ]
}

/// The member values written for a response, in field order (`null` for
/// absent claims, which are not written).
pub open spec fn response_values(r: ResponseView) -> Seq<JsonValue> {
    seq![
        JsonValue::Str(r.schema),
        JsonValue::Str(r.outcome),
        JsonValue::Str(uuid_hyphenated(r.actor)),
        match r.claims {
            Some(c) => claims_json(c),
            None => JsonValue::Null,
        },
        ledger_json(r.ledger),
        texts_json(r.granted),
        endpoint_json(r.endpoint),
        JsonValue::Str(r.in_reply_to),
        JsonValue::Str(r.bundle),
    ]
}

/// The fields a response reads back as.
pub open spec fn response_field_views(r: ResponseView) -> Seq<FieldView> {
    seq![
        FieldView::Text(r.schema),
        FieldView::Text(r.outcome),
        FieldView::Id(r.actor),
        FieldView::OptClaims(r.claims),
        FieldView::Ledger(r.ledger),
        FieldView::TextList(r.granted),
        FieldView::Endpoint(r.endpoint),
        FieldView::Text(r.in_reply_to),
        FieldView::Text(r.bundle),
    ]
}

proof fn lemma_response_field_index()
    ensures
        forall|k: int|
            0 <= k < 9 ==> field_index(record_fields(Record::Response), #[trigger] response_names()[k])
                == Some(k),
{
    reveal_strlit("schema");
    reveal_strlit("outcome");
    reveal_strlit("actor");
    reveal_strlit("claims");
    reveal_strlit("ledger");
    reveal_strlit("granted");
    reveal_strlit("endpoint");
    reveal_strlit("in_reply_to");
    reveal_strlit("bundle");
    let f = record_fields(Record::Response);
    let names = response_names();
    assert forall|k: int| 0 <= k < 9 implies field_index(f, #[trigger] names[k]) == Some(k) by {
        assert forall|i: int| 0 <= i < k implies #[trigger] f[i].0 != names[k] by {
            assert(f[i].0 == names[i]);
            assert(names[i][0] != names[k][0]);
        }
        assert(f[k].0 == names[k]);
        lemma_field_index_at(f, k, names[k]);
    }
}

proof fn lemma_response_values_read_back(r: ResponseView)
    ensures
        forall|k: int|
            0 <= k < 9 ==> decode_field_spec(
                #[trigger] record_fields(Record::Response)[k].1,
                response_values(r)[k],
            ) == Ok::<FieldView, Seq<char>>(response_field_views(r)[k]),
{
    crate::ids::law_uuid_text_parses_back(r.actor);
    lemma_ledger_read_back(r.ledger);
    lemma_text_list_of_strings(r.granted);
    lemma_endpoint_read_back(r.endpoint);
    match r.claims {
        Some(c) => {
            lemma_claims_read_back(c);
        },
        None => {},
    }
}

proof fn lemma_response_members(r: ResponseView)
    ensures
        response_json_value(r) == JsonValue::Object(
            match r.claims {
                Some(_) => Seq::new(9, |k: int| (response_names()[k], response_values(r)[k])),
                None => Seq::new(
                    8,
                    |j: int|
                        {
                            let k = if j < 3 {
                                j
                            } else {
                                j + 1
                            };
                            (response_names()[k], response_values(r)[k])
                        },
                ),
            },
        ),
{
    let head = seq![
        ("schema"@, JsonValue::Str(r.schema)),
        ("outcome"@, JsonValue::Str(r.outcome)),
        ("actor"@, JsonValue::Str(uuid_hyphenated(r.actor))),
    ];
    let tail = seq![
        ("ledger"@, ledger_json(r.ledger)),
        ("granted"@, texts_json(r.granted)),
        ("endpoint"@, endpoint_json(r.endpoint)),
        ("in_reply_to"@, JsonValue::Str(r.in_reply_to)),
        ("bundle"@, JsonValue::Str(r.bundle)),
    ];
    match r.claims {
        Some(c) => {
            assert(head + seq![("claims"@, claims_json(c))] + tail =~= Seq::new(
                9,
                |k: int| (response_names()[k], response_values(r)[k]),
            ));
        },
        None => {
            assert(head + Seq::<(Seq<char>, JsonValue)>::empty() + tail =~= Seq::new(
                8,
                |j: int|
                    {
                        let k = if j < 3 {
                            j
                        } else {
                            j + 1
                        };
                        (response_names()[k], response_values(r)[k])
                    },
            ));
        },
    }
}

/// The JSON written for a response reads back as the same response, with
/// or without claims.
#[verifier::rlimit(40)]
pub proof fn lemma_response_read_back(r: ResponseView)
    ensures
        response_decode_spec(response_json_value(r)) == Ok::<ResponseView, Seq<char>>(r),
{
    lemma_response_field_index();
    lemma_response_values_read_back(r);
    lemma_response_members(r);
    let f = record_fields(Record::Response);
    let names = response_names();
    let values = response_values(r);
    let xs = response_field_views(r);
    let n: int = if r.claims is Some {
        9
    } else {
        8
    };
    let pos = Seq::new(
        n as nat,
        |j: int|
            if r.claims is Some || j < 3 {
                j
            } else {
                j + 1
            },
    );
    let ms = Seq::new(n as nat, |j: int| (names[pos[j]], values[pos[j]]));
    assert(response_json_value(r) == JsonValue::Object(ms)) by {
        let expected = match r.claims {
            Some(_) => Seq::new(9, |k: int| (names[k], values[k])),
            None => Seq::new(
                8,
                |j: int|
                    {
                        let k = if j < 3 {
                            j
                        } else {
                            j + 1
                        };
                        (names[k], values[k])
                    },
            ),
        };
        assert(expected =~= ms);
    }
    let vals = Seq::new(n as nat, |j: int| xs[pos[j]]);
    let none = Seq::new(9, |k: int| None::<FieldView>);
    let target = Seq::new(
        9,
        |k: int|
            if k == 3 && r.claims is None {
                None
            } else {
                Some(xs[k])
            },
    );
    assert forall|j: int| 0 <= j < ms.len() implies decode_field_spec(
        f[pos[j]].1,
        #[trigger] ms[j].1,
    ) == Ok::<FieldView, Seq<char>>(vals[j]) by {
        assert(decode_field_spec(f[pos[j]].1, values[pos[j]]) == Ok::<FieldView, Seq<char>>(
            xs[pos[j]],
        ));
    }
    assert forall|j: int| 0 <= j < ms.len() implies field_index(f, #[trigger] ms[j].0) == Some(
        pos[j],
    ) by {
        assert(field_index(f, names[pos[j]]) == Some(pos[j]));
    }
    assert forall|k: int|
        0 <= k < 9 && (forall|j: int| 0 <= j < ms.len() ==> #[trigger] pos[j] != k) implies #[trigger] target[k]
            == none[k] by {
        if k != 3 || r.claims is Some {
            if r.claims is Some || k < 3 {
                assert(pos[k] == k);
            } else {
                assert(pos[k - 1] == k);
            }
        }
    }
    assert forall|j: int| 0 <= j < ms.len() implies #[trigger] target[pos[j]] == Some(vals[j]) by {}
    lemma_walk_at(Record::Response, ms, pos, vals, 0, none, target);
    assert forall|j: int|
        0 <= j < 9 implies (#[trigger] target[j] == Some(xs[j]) || (target[j] is None && absent_ok(
            f[j].1,
            xs[j],
        ))) by {}
    lemma_finish_slots(Record::Response, target, xs, 0);
    assert(xs.skip(0) =~= xs);
    assert(response_from(xs) == r);
}

} // verus!
