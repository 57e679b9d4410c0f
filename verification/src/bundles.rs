//! What the signed payloads of an identity bundle say about an actor: that
//! the actor itself is signed, which key it is bound to, and that key's
//! fingerprint.

use vstd::prelude::*;
use vstd::utf8::*;
use crate::actor_exchange::{payload_view, payload_views};
use crate::errors::{FactError, Failure};
use crate::ids::{parse_uuid_text, uuid_hyphenated, uuid_parse_spec, uuid_text};
use crate::json::{Json, JsonValue, get, get_str, json_bytes_parse, member, parse_json_bytes, str_member};
use crate::text::{concat, contains_text, push_str, str_eq, texts};
use crate::json::{array_items, lemma_array_value};

verus! {

/// The identity of the actor a bundle signs.
#[derive(Debug)]
pub struct ActorBundleIdentity {
    pub actor_id: u128,
    pub key_id: u128,
    /// `SHA256:` and the key's public key fingerprint.
    pub fingerprint: String,
}

/// What the payloads read so far have shown: whether the actor was seen,
/// the key its latest binding names (if it could be read), and the keys met,
/// each with its fingerprint text, in order.
pub struct ScanView {
    pub actor_seen: bool,
    pub binding_key: Option<u128>,
    pub keys: Seq<(u128, Seq<char>)>,
}

/// A string member that reads as a UUID.
pub open spec fn uuid_member(v: JsonValue, key: Seq<char>) -> Option<u128> {
    match str_member(v, key) {
        Some(s) => uuid_parse_spec(encode_utf8(s)),
        None => None,
    }
}

/// The object body of a payload, when it is an object.
pub open spec fn object_body(v: JsonValue) -> Option<JsonValue> {
    match member(v, "body"@) {
        Some(JsonValue::Object(m)) => Some(JsonValue::Object(m)),
        _ => None,
    }
}

/// The fingerprint a key payload records: `body.public_key.fingerprint`.
pub open spec fn key_fingerprint(v: JsonValue) -> Option<Seq<char>> {
    match member(v, "body"@) {
        Some(body) => match member(body, "public_key"@) {
            Some(key) => str_member(key, "fingerprint"@),
            None => None,
        },
        None => None,
    }
}

/// How one payload changes the scan: an `actor` object with the actor's ID
/// marks it seen; an `actor_key_binding` whose body names the actor sets the
/// bound key to the body's `key_id` (or none when that does not read as a
/// UUID); a `key` object with a UUID and a fingerprint is recorded.
pub open spec fn scan_step(s: ScanView, v: JsonValue, actor: u128) -> ScanView {
    match str_member(v, "object_type"@) {
        Some(t) => if t == "actor"@ {
            if uuid_member(v, "id"@) == Some(actor) {
                ScanView { actor_seen: true, ..s }
            } else {
                s
            }
        } else if t == "actor_key_binding"@ {
            match object_body(v) {
                Some(body) => if uuid_member(body, "actor_id"@) == Some(actor) {
                    ScanView { binding_key: uuid_member(body, "key_id"@), ..s }
                } else {
                    s
                },
                None => s,
            }
        } else if t == "key"@ {
            match (uuid_member(v, "id"@), key_fingerprint(v)) {
                (Some(id), Some(f)) => ScanView {
                    keys: s.keys.push((id, "SHA256:"@ + f)),
                    ..s
                },
                _ => s,
            }
        } else {
            s
        },
        None => s,
    }
}

/// Scanning the payloads of a bundle in order; the first payload that could
/// not be opened or read as JSON is the error.
pub open spec fn scan_spec(payloads: Seq<Result<Seq<u8>, Seq<char>>>, actor: u128) -> Result<
    ScanView,
    Failure,
>
    decreases payloads.len(),
{
    if payloads.len() == 0 {
        Ok(ScanView { actor_seen: false, binding_key: None, keys: Seq::empty() })
    } else {
        match scan_spec(payloads.drop_last(), actor) {
            Err(e) => Err(e),
            Ok(s) => match payloads.last() {
                Err(e) => Err(Failure::User(e)),
                Ok(bytes) => match json_bytes_parse(bytes) {
                    Err(e) => Err(Failure::Json(e)),
                    Ok(v) => Ok(scan_step(s, v, actor)),
                },
            },
        }
    }
}

/// The fingerprint last recorded for a key.
pub open spec fn latest_fingerprint(keys: Seq<(u128, Seq<char>)>, id: u128) -> Option<Seq<char>>
    decreases keys.len(),
{
    if keys.len() == 0 {
        None
    } else if keys.last().0 == id {
        Some(keys.last().1)
    } else {
        latest_fingerprint(keys.drop_last(), id)
    }
}

/// The identity a bundle's payloads give an actor: the actor must be signed,
/// bound to a key, and that key recorded with a fingerprint.
pub open spec fn identity_spec(payloads: Seq<Result<Seq<u8>, Seq<char>>>, actor: u128) -> Result<
    (u128, Seq<char>),
    Failure,
> {
    match scan_spec(payloads, actor) {
        Err(e) => Err(e),
        Ok(s) => if !s.actor_seen {
            Err(
                Failure::User(
                    "request bundle does not contain signed actor "@ + uuid_hyphenated(actor),
                ),
            )
        } else {
            match s.binding_key {
                None => Err(
                    Failure::User(
                        "request bundle does not contain a signing key binding for "@
                            + uuid_hyphenated(actor),
                    ),
                ),
                Some(key) => match latest_fingerprint(s.keys, key) {
                    None => Err(
                        Failure::User(
                            "request bundle does not contain signing key "@ + uuid_hyphenated(
                                key,
                            ),
                        ),
                    ),
                    Some(f) => Ok((key, f)),
                },
            }
        },
    }
}

fn uuid_member_of(v: &Json, key: &str) -> (r: Option<u128>)
    ensures
        r == uuid_member(v@, key@),
{
    match get_str(v, key) {
        Some(s) => match parse_uuid_text(s.as_str()) {
            Ok(u) => Some(u),
            Err(_) => None,
        },
        None => None,
    }
}

pub open spec fn keys_view(keys: Seq<(u128, String)>) -> Seq<(u128, Seq<char>)> {
    keys.map_values(|k: (u128, String)| (k.0, k.1@))
}

fn scan_payload(
    actor_seen: &mut bool,
    binding_key: &mut Option<u128>,
    keys: &mut Vec<(u128, String)>,
    v: &Json,
    actor: u128,
)
    ensures
        scan_step(
            ScanView {
                actor_seen: *old(actor_seen),
                binding_key: *old(binding_key),
                keys: keys_view(old(keys)@),
            },
            v@,
            actor,
        ) == (ScanView {
            actor_seen: *final(actor_seen),
            binding_key: *final(binding_key),
            keys: keys_view(final(keys)@),
        }),
{
    let object_type = match get_str(v, "object_type") {
        Some(t) => t,
        None => {
            return;
        },
    };
    if str_eq(object_type.as_str(), "actor") {
        if uuid_member_of(v, "id") == Some(actor) {
            *actor_seen = true;
        }
    } else if str_eq(object_type.as_str(), "actor_key_binding") {
        match get(v, "body") {
            Some(body) => match body {
                Json::Object(_) => {
                    if uuid_member_of(body, "actor_id") == Some(actor) {
                        *binding_key = uuid_member_of(body, "key_id");
                    }
                },
                _ => {},
            },
            None => {},
        }
    } else if str_eq(object_type.as_str(), "key") {
        let id = uuid_member_of(v, "id");
        let fingerprint = match get(v, "body") {
            Some(body) => match get(body, "public_key") {
                Some(key) => get_str(key, "fingerprint"),
                None => None,
            },
            None => None,
        };
        match (id, fingerprint) {
            (Some(id), Some(f)) => {
                let ghost before = keys_view(keys@);
                let text = concat("SHA256:", f.as_str());
                keys.push((id, text));
                assert(keys_view(keys@) =~= before.push((id, "SHA256:"@ + f@)));
            },
            _ => {},
        }
    }
}

fn find_fingerprint(keys: &Vec<(u128, String)>, id: u128) -> (r: Option<String>)
    ensures
        match r {
            Some(f) => latest_fingerprint(keys_view(keys@), id) == Some(f@),
            None => latest_fingerprint(keys_view(keys@), id) is None,
        },
{
    let ghost all = keys_view(keys@);
    let mut k: usize = keys.len();
    assert(all.take(k as int) =~= all);
    while k > 0
        invariant
            k <= keys@.len(),
            all == keys_view(keys@),
            latest_fingerprint(all, id) == latest_fingerprint(all.take(k as int), id),
        decreases k,
    {
        assert(all.take(k as int).drop_last() =~= all.take(k - 1));
        assert(all.take(k as int).last() == (keys@[k - 1].0, keys@[k - 1].1@));
        if keys[k - 1].0 == id {
            return Some(keys[k - 1].1.clone());
        }
        k = k - 1;
    }
    None
}

/// The identity an actor request's bundle gives the requesting actor.
/// `payloads` holds, per signed object of the bundle in order, its payload,
/// or the message for the error met opening its envelope.
pub fn identity_from_actor_bundle(payloads: &Vec<Result<Vec<u8>, String>>, actor_id: u128) -> (r:
    Result<ActorBundleIdentity, FactError>)
    ensures
        match identity_spec(payload_views(payloads@), actor_id) {
            Ok((key, fingerprint)) => r matches Ok(i) && i.actor_id == actor_id && i.key_id == key
                && i.fingerprint@ == fingerprint,
            Err(failure) => r matches Err(e) && e@ == failure,
        },
{
    let ghost pv = payload_views(payloads@);
    let mut actor_seen = false;
    let mut binding_key: Option<u128> = None;
    let mut keys: Vec<(u128, String)> = Vec::new();
    let mut i: usize = 0;
    assert(keys_view(keys@) =~= Seq::<(u128, Seq<char>)>::empty());
    while i < payloads.len()
        invariant
            i <= payloads@.len(),
            pv == payload_views(payloads@),
            scan_spec(pv.take(i as int), actor_id) == Ok::<ScanView, Failure>(
                ScanView { actor_seen, binding_key, keys: keys_view(keys@) },
            ),
        decreases payloads@.len() - i,
    {
        assert(pv.take(i + 1).drop_last() =~= pv.take(i as int));
        assert(pv.take(i + 1).last() == payload_view(payloads@[i as int]));
        let bytes = match &payloads[i] {
            Ok(b) => b,
            Err(e) => {
                proof {
                    lemma_scan_error_stays(pv, i as int + 1, actor_id);
                }
                return Err(FactError::User(e.clone()));
            },
        };
        let value = match parse_json_bytes(bytes.as_slice()) {
            Ok(v) => v,
            Err(e) => {
                proof {
                    lemma_scan_error_stays(pv, i as int + 1, actor_id);
                }
                return Err(FactError::Json(e));
            },
        };
        scan_payload(&mut actor_seen, &mut binding_key, &mut keys, &value, actor_id);
        i = i + 1;
    }
    assert(pv.take(payloads@.len() as int) =~= pv);
    let actor_text = uuid_text(actor_id);
    if !actor_seen {
        return Err(FactError::User(concat("request bundle does not contain signed actor ", actor_text.as_str())));
    }
    let key_id = match binding_key {
        Some(k) => k,
        None => {
            return Err(
                FactError::User(
                    concat(
                        "request bundle does not contain a signing key binding for ",
                        actor_text.as_str(),
                    ),
                ),
            );
        },
    };
    let fingerprint = match find_fingerprint(&keys, key_id) {
        Some(f) => f,
        None => {
            let key_text = uuid_text(key_id);
            return Err(
                FactError::User(
                    concat("request bundle does not contain signing key ", key_text.as_str()),
                ),
            );
        },
    };
    Ok(ActorBundleIdentity { actor_id, key_id, fingerprint })
}

proof fn lemma_scan_error_stays(p: Seq<Result<Seq<u8>, Seq<char>>>, n: int, actor: u128)
    requires
        0 <= n <= p.len(),
        scan_spec(p.take(n), actor) is Err,
    ensures
        scan_spec(p, actor) == scan_spec(p.take(n), actor),
    decreases p.len(),
{
    if n < p.len() {
        assert(p.drop_last().take(n) =~= p.take(n));
        lemma_scan_error_stays(p.drop_last(), n, actor);
    } else {
        assert(p.take(n) =~= p);
    }
}

/// What a cloned object's payload says about what it depends on.
#[derive(Debug)]
pub struct CloneObjectInfo {
    pub id: String,
    pub object_type: String,
    pub ledger_id: Option<String>,
    pub actor_id: Option<String>,
    pub signing_key_id: Option<String>,
    /// The `object_id`s of its dependencies.
    pub dependencies: Vec<String>,
    /// For an authorization grant, the actor it is granted to.
    pub receiving_actor_id: Option<String>,
    /// For an actor-key binding, the actor bound.
    pub binding_actor_id: Option<String>,
    /// For an actor-key binding, the key bound.
    pub binding_key_id: Option<String>,
}

pub struct InfoView {
    pub id: Seq<char>,
    pub object_type: Seq<char>,
    pub ledger_id: Option<Seq<char>>,
    pub actor_id: Option<Seq<char>>,
    pub signing_key_id: Option<Seq<char>>,
    pub dependencies: Seq<Seq<char>>,
    pub receiving_actor_id: Option<Seq<char>>,
    pub binding_actor_id: Option<Seq<char>>,
    pub binding_key_id: Option<Seq<char>>,
}

pub open spec fn ov(o: Option<String>) -> Option<Seq<char>> {
    match o {
        Some(s) => Some(s@),
        None => None,
    }
}

impl View for CloneObjectInfo {
    type V = InfoView;

    open spec fn view(&self) -> InfoView {
        InfoView {
            id: self.id@,
            object_type: self.object_type@,
            ledger_id: ov(self.ledger_id),
            actor_id: ov(self.actor_id),
            signing_key_id: ov(self.signing_key_id),
            dependencies: texts(self.dependencies@),
            receiving_actor_id: ov(self.receiving_actor_id),
            binding_actor_id: ov(self.binding_actor_id),
            binding_key_id: ov(self.binding_key_id),
        }
    }
}

/// The `object_id`s of a list of dependency references, in order; entries
/// without one are skipped.
pub open spec fn dependency_ids(items: Seq<JsonValue>) -> Seq<Seq<char>>
    decreases items.len(),
{
    if items.len() == 0 {
        Seq::empty()
    } else {
        match str_member(items.last(), "object_id"@) {
            Some(id) => dependency_ids(items.drop_last()).push(id),
            None => dependency_ids(items.drop_last()),
        }
    }
}

/// A body member read as text, when the body is an object.
pub open spec fn body_text(v: JsonValue, key: Seq<char>) -> Option<Seq<char>> {
    match object_body(v) {
        Some(body) => str_member(body, key),
        None => None,
    }
}

/// Reading what a cloned object's payload says it depends on; `id` and
/// `object_type` are required (the error names them as a descriptor's
/// missing members do).
pub open spec fn object_info_spec(payload: Seq<u8>) -> Result<InfoView, Failure> {
    match json_bytes_parse(payload) {
        Err(e) => Err(Failure::Json(e)),
        Ok(v) => match str_member(v, "id"@) {
            None => Err(Failure::User("remote descriptor is missing "@ + "id"@)),
            Some(id) => match str_member(v, "object_type"@) {
                None => Err(Failure::User("remote descriptor is missing "@ + "object_type"@)),
                Some(object_type) => Ok(
                    InfoView {
                        id,
                        object_type,
                        ledger_id: str_member(v, "ledger_id"@),
                        actor_id: str_member(v, "actor_id"@),
                        signing_key_id: str_member(v, "signing_key_id"@),
                        dependencies: match member(v, "dependencies"@) {
                            Some(JsonValue::Array(items)) => dependency_ids(items),
                            _ => Seq::empty(),
                        },
                        receiving_actor_id: body_text(v, "receiving_actor_id"@),
                        binding_actor_id: body_text(v, "actor_id"@),
                        binding_key_id: body_text(v, "key_id"@),
                    },
                ),
            },
        },
    }
}

fn body_text_of(v: &Json, key: &str) -> (r: Option<String>)
    ensures
        ov(r) == body_text(v@, key@),
{
    match get(v, "body") {
        Some(body) => match body {
            Json::Object(_) => get_str(body, key),
            _ => None,
        },
        None => None,
    }
}

fn dependency_list(v: &Json) -> (r: Vec<String>)
    ensures
        texts(r@) == match member(v@, "dependencies"@) {
            Some(JsonValue::Array(items)) => dependency_ids(items),
            _ => Seq::empty(),
        },
{
    let mut out: Vec<String> = Vec::new();
    match get(v, "dependencies") {
        Some(d) => match d {
            Json::Array(items) => {
                proof {
                    lemma_array_value(d, items);
                }
                let ghost all = items@.map_values(|j: Json| j@);
                assert(all =~= array_items(d@));
                let mut i: usize = 0;
                while i < items.len()
                    invariant
                        i <= items@.len(),
                        all == items@.map_values(|j: Json| j@),
                        texts(out@) == dependency_ids(all.take(i as int)),
                    decreases items@.len() - i,
                {
                    assert(all.take(i + 1).drop_last() =~= all.take(i as int));
                    assert(all.take(i + 1).last() == items@[i as int]@);
                    match get_str(&items[i], "object_id") {
                        Some(id) => {
                            let ghost before = texts(out@);
                            out.push(id);
                            assert(texts(out@) =~= before.push(out@[out@.len() - 1]@));
                        },
                        None => {},
                    }
                    i = i + 1;
                }
                assert(all.take(items@.len() as int) =~= all);
                out
            },
            _ => {
                assert(texts(out@) =~= Seq::<Seq<char>>::empty());
                out
            },
        },
        None => {
            assert(texts(out@) =~= Seq::<Seq<char>>::empty());
            out
        },
    }
}

/// Reads what a cloned object's payload says it depends on.
pub fn clone_object_info(payload: &[u8]) -> (r: Result<CloneObjectInfo, FactError>)
    ensures
        match r {
            Ok(i) => object_info_spec(payload@) == Ok::<InfoView, Failure>(i@),
            Err(e) => object_info_spec(payload@) == Err::<InfoView, Failure>(e@),
        },
{
    let v = match parse_json_bytes(payload) {
        Ok(v) => v,
        Err(e) => {
            return Err(FactError::Json(e));
        },
    };
    let id = crate::remote::required_string(&v, "id")?;
    let object_type = crate::remote::required_string(&v, "object_type")?;
    Ok(
        CloneObjectInfo {
            id,
            object_type,
            ledger_id: get_str(&v, "ledger_id"),
            actor_id: get_str(&v, "actor_id"),
            signing_key_id: get_str(&v, "signing_key_id"),
            dependencies: dependency_list(&v),
            receiving_actor_id: body_text_of(&v, "receiving_actor_id"),
            binding_actor_id: body_text_of(&v, "actor_id"),
            binding_key_id: body_text_of(&v, "key_id"),
        },
    )
}

/// The objects whose payloads could be opened and read, in order.
pub open spec fn readable_infos(payloads: Seq<Result<Seq<u8>, Seq<char>>>) -> Seq<InfoView>
    decreases payloads.len(),
{
    if payloads.len() == 0 {
        Seq::empty()
    } else {
        match payloads.last() {
            Ok(bytes) => match object_info_spec(bytes) {
                Ok(info) => readable_infos(payloads.drop_last()).push(info),
                Err(_) => readable_infos(payloads.drop_last()),
            },
            Err(_) => readable_infos(payloads.drop_last()),
        }
    }
}

pub open spec fn info_ids(infos: Seq<InfoView>) -> Seq<Seq<char>> {
    infos.map_values(|i: InfoView| i.id)
}

pub open spec fn absent(ids: Seq<Seq<char>>, o: Option<Seq<char>>) -> bool {
    match o {
        Some(x) => !ids.contains(x),
        None => false,
    }
}

/// The first authorization grant whose receiving actor is not among the
/// objects, as a diagnostic.
pub open spec fn receiving_diagnostic(infos: Seq<InfoView>, ids: Seq<Seq<char>>) -> Option<Seq<char>>
    decreases infos.len(),
{
    if infos.len() == 0 {
        None
    } else if absent(ids, infos[0].receiving_actor_id) {
        Some(
            "authorization grant "@ + infos[0].id + " references missing receiving actor identity "@
                + infos[0].receiving_actor_id.unwrap()
                + "; import or include the relevant identity bundle"@,
        )
    } else {
        receiving_diagnostic(infos.drop_first(), ids)
    }
}

/// The first dependency not among the objects.
pub open spec fn first_missing(deps: Seq<Seq<char>>, ids: Seq<Seq<char>>) -> Option<Seq<char>>
    decreases deps.len(),
{
    if deps.len() == 0 {
        None
    } else if !ids.contains(deps[0]) {
        Some(deps[0])
    } else {
        first_missing(deps.drop_first(), ids)
    }
}

/// What one object lacks, in the order it is checked: a dependency, its
/// signer's actor, its signer's key, and for a binding the actor and key
/// bound.
pub open spec fn signer_diagnostic_of(i: InfoView, ids: Seq<Seq<char>>) -> Option<Seq<char>> {
    match first_missing(i.dependencies, ids) {
        Some(d) => Some(
            "missing dependency object "@ + d + " referenced by "@ + i.object_type + " "@ + i.id,
        ),
        None => if absent(ids, i.actor_id) {
            Some(
                "missing actor identity "@ + i.actor_id.unwrap() + " for signer of "@
                    + i.object_type + " "@ + i.id
                    + "; import or include the relevant identity bundle"@,
            )
        } else if absent(ids, i.signing_key_id) {
            Some(
                "missing key identity "@ + i.signing_key_id.unwrap() + " for signer of "@
                    + i.object_type + " "@ + i.id
                    + "; import or include the relevant identity bundle"@,
            )
        } else if absent(ids, i.binding_actor_id) {
            Some(
                "actor-key binding "@ + i.id + " references missing actor identity "@
                    + i.binding_actor_id.unwrap()
                    + "; import or include the relevant identity bundle"@,
            )
        } else if absent(ids, i.binding_key_id) {
            Some(
                "actor-key binding "@ + i.id + " references missing key identity "@
                    + i.binding_key_id.unwrap()
                    + "; import or include the relevant identity bundle"@,
            )
        } else {
            None
        },
    }
}

pub open spec fn signer_diagnostic(infos: Seq<InfoView>, ids: Seq<Seq<char>>) -> Option<Seq<char>>
    decreases infos.len(),
{
    if infos.len() == 0 {
        None
    } else {
        match signer_diagnostic_of(infos[0], ids) {
            Some(d) => Some(d),
            None => signer_diagnostic(infos.drop_first(), ids),
        }
    }
}

/// Whether some object is the genesis of the given ledger.
pub open spec fn has_genesis(infos: Seq<InfoView>, ledger: Seq<char>) -> bool {
    exists|k: int|
        0 <= k < infos.len() && #[trigger] infos[k].ledger_id == Some(ledger) && infos[k].object_type
            == "genesis"@
}

/// A ledger that objects belong to but whose genesis is not among them.
pub open spec fn ledger_without_genesis(infos: Seq<InfoView>, ledger: Seq<char>) -> bool {
    (exists|k: int| 0 <= k < infos.len() && #[trigger] infos[k].ledger_id == Some(ledger))
        && !has_genesis(infos, ledger)
}

pub open spec fn genesis_diagnostic(ledger: Seq<char>) -> Seq<char> {
    "missing ledger-scoped genesis object for ledger "@ + ledger
}

/// The diagnostic for a set of cloned objects that is not closed: the first
/// missing receiving actor; else the first thing an object lacks; else a
/// ledger whose genesis is missing (which one, when several are, is not
/// fixed); else none.
pub open spec fn clone_diagnostic_ok(infos: Seq<InfoView>, r: Option<Seq<char>>) -> bool {
    let ids = info_ids(infos);
    match receiving_diagnostic(infos, ids) {
        Some(d) => r == Some(d),
        None => match signer_diagnostic(infos, ids) {
            Some(d) => r == Some(d),
            None => match r {
                Some(d) => exists|l: Seq<char>|
                    ledger_without_genesis(infos, l) && d == #[trigger] genesis_diagnostic(l),
                None => forall|l: Seq<char>| !#[trigger] ledger_without_genesis(infos, l),
            },
        },
    }
}

pub open spec fn infos_view(v: Seq<CloneObjectInfo>) -> Seq<InfoView> {
    v.map_values(|i: CloneObjectInfo| i@)
}

fn readable_objects(payloads: &Vec<Result<Vec<u8>, String>>) -> (infos: Vec<CloneObjectInfo>)
    ensures
        infos_view(infos@) == readable_infos(payload_views(payloads@)),
{
    let ghost pv = payload_views(payloads@);
    let mut infos: Vec<CloneObjectInfo> = Vec::new();
    let mut i: usize = 0;
    while i < payloads.len()
        invariant
            i <= payloads@.len(),
            pv == payload_views(payloads@),
            infos_view(infos@) == readable_infos(pv.take(i as int)),
        decreases payloads@.len() - i,
    {
        assert(pv.take(i + 1).drop_last() =~= pv.take(i as int));
        assert(pv.take(i + 1).last() == payload_view(payloads@[i as int]));
        match &payloads[i] {
            Ok(bytes) => match clone_object_info(bytes.as_slice()) {
                Ok(info) => {
                    let ghost before = infos_view(infos@);
                    infos.push(info);
                    assert(infos_view(infos@) =~= before.push(infos@[infos@.len() - 1]@));
                },
                Err(_) => {},
            },
            Err(_) => {},
        }
        i = i + 1;
    }
    assert(pv.take(payloads@.len() as int) =~= pv);
    infos
}

fn absent_from(ids: &Vec<String>, o: &Option<String>) -> (r: bool)
    ensures
        r == absent(texts(ids@), ov(*o)),
{
    match o {
        Some(x) => !contains_text(ids, x),
        None => false,
    }
}

fn signer_diagnostic_for(info: &CloneObjectInfo, ids: &Vec<String>) -> (r: Option<String>)
    ensures
        ov(r) == signer_diagnostic_of(info@, texts(ids@)),
{
    let ghost deps = texts(info.dependencies@);
    let mut k: usize = 0;
    assert(deps.skip(0) =~= deps);
    while k < info.dependencies.len()
        invariant
            k <= info.dependencies@.len(),
            deps == texts(info.dependencies@),
            first_missing(deps, texts(ids@)) == first_missing(deps.skip(k as int), texts(ids@)),
        decreases info.dependencies@.len() - k,
    {
        assert(deps.skip(k as int).drop_first() =~= deps.skip(k + 1));
        assert(deps.skip(k as int)[0] == info.dependencies@[k as int]@);
        let dep = &info.dependencies[k];
        if !contains_text(ids, dep) {
            let mut d = concat("missing dependency object ", dep.as_str());
            push_str(&mut d, " referenced by ");
            push_str(&mut d, info.object_type.as_str());
            push_str(&mut d, " ");
            push_str(&mut d, info.id.as_str());
            return Some(d);
        }
        k = k + 1;
    }
    assert(deps.skip(k as int) =~= Seq::<Seq<char>>::empty());
    let suffix = "; import or include the relevant identity bundle";
    if absent_from(ids, &info.actor_id) {
        let a = match &info.actor_id {
            Some(a) => a,
            None => {
                return None;
            },
        };
        let mut d = concat("missing actor identity ", a.as_str());
        push_str(&mut d, " for signer of ");
        push_str(&mut d, info.object_type.as_str());
        push_str(&mut d, " ");
        push_str(&mut d, info.id.as_str());
        push_str(&mut d, suffix);
        Some(d)
    } else if absent_from(ids, &info.signing_key_id) {
        let a = match &info.signing_key_id {
            Some(a) => a,
            None => {
                return None;
            },
        };
        let mut d = concat("missing key identity ", a.as_str());
        push_str(&mut d, " for signer of ");
        push_str(&mut d, info.object_type.as_str());
        push_str(&mut d, " ");
        push_str(&mut d, info.id.as_str());
        push_str(&mut d, suffix);
        Some(d)
    } else if absent_from(ids, &info.binding_actor_id) {
        let a = match &info.binding_actor_id {
            Some(a) => a,
            None => {
                return None;
            },
        };
        let mut d = concat("actor-key binding ", info.id.as_str());
        push_str(&mut d, " references missing actor identity ");
        push_str(&mut d, a.as_str());
        push_str(&mut d, suffix);
        Some(d)
    } else if absent_from(ids, &info.binding_key_id) {
        let a = match &info.binding_key_id {
            Some(a) => a,
            None => {
                return None;
            },
        };
        let mut d = concat("actor-key binding ", info.id.as_str());
        push_str(&mut d, " references missing key identity ");
        push_str(&mut d, a.as_str());
        push_str(&mut d, suffix);
        Some(d)
    } else {
        None
    }
}

/// The first problem that keeps a set of cloned objects from being closed
/// under what they reference, if any. `payloads` holds, per object, its
/// payload, or the error met opening its envelope; objects that cannot be
/// opened or read are left out.
pub fn clone_dependency_diagnostic(payloads: &Vec<Result<Vec<u8>, String>>) -> (r: Option<String>)
    ensures
        clone_diagnostic_ok(readable_infos(payload_views(payloads@)), ov(r)),
{
    let infos = readable_objects(payloads);
    let ghost iv = infos_view(infos@);
    let mut ids: Vec<String> = Vec::new();
    let mut i: usize = 0;
    while i < infos.len()
        invariant
            i <= infos@.len(),
            iv == infos_view(infos@),
            iv == readable_infos(payload_views(payloads@)),
            texts(ids@) == info_ids(iv).take(i as int),
        decreases infos@.len() - i,
    {
        let ghost before = texts(ids@);
        ids.push(infos[i].id.clone());
        assert(texts(ids@) =~= before.push(iv[i as int].id));
        assert(info_ids(iv).take(i + 1) =~= info_ids(iv).take(i as int).push(iv[i as int].id));
        i = i + 1;
    }
    assert(info_ids(iv).take(infos@.len() as int) =~= info_ids(iv));
    let ghost idv = info_ids(iv);
    let mut i: usize = 0;
    assert(iv.skip(0) =~= iv);
    while i < infos.len()
        invariant
            i <= infos@.len(),
            iv == infos_view(infos@),
            iv == readable_infos(payload_views(payloads@)),
            texts(ids@) == idv,
            idv == info_ids(iv),
            receiving_diagnostic(iv, idv) == receiving_diagnostic(iv.skip(i as int), idv),
        decreases infos@.len() - i,
    {
        assert(iv.skip(i as int).drop_first() =~= iv.skip(i + 1));
        assert(iv.skip(i as int)[0] == infos@[i as int]@);
        let info = &infos[i];
        if absent_from(&ids, &info.receiving_actor_id) {
            match &info.receiving_actor_id {
                Some(a) => {
                    let mut d = concat("authorization grant ", info.id.as_str());
                    push_str(&mut d, " references missing receiving actor identity ");
                    push_str(&mut d, a.as_str());
                    push_str(&mut d, "; import or include the relevant identity bundle");
                    return Some(d);
                },
                None => {},
            }
        }
        i = i + 1;
    }
    assert(iv.skip(i as int) =~= Seq::<InfoView>::empty());
    let mut i: usize = 0;
    assert(iv.skip(0) =~= iv);
    while i < infos.len()
        invariant
            i <= infos@.len(),
            iv == infos_view(infos@),
            iv == readable_infos(payload_views(payloads@)),
            texts(ids@) == idv,
            idv == info_ids(iv),
            receiving_diagnostic(iv, idv) is None,
            signer_diagnostic(iv, idv) == signer_diagnostic(iv.skip(i as int), idv),
        decreases infos@.len() - i,
    {
        assert(iv.skip(i as int).drop_first() =~= iv.skip(i + 1));
        assert(iv.skip(i as int)[0] == infos@[i as int]@);
        match signer_diagnostic_for(&infos[i], &ids) {
            Some(d) => {
                return Some(d);
            },
            None => {},
        }
        i = i + 1;
    }
    assert(iv.skip(i as int) =~= Seq::<InfoView>::empty());
    let mut i: usize = 0;
    while i < infos.len()
        invariant
            i <= infos@.len(),
            iv == infos_view(infos@),
            iv == readable_infos(payload_views(payloads@)),
            idv == info_ids(iv),
            receiving_diagnostic(iv, idv) is None,
            signer_diagnostic(iv, idv) is None,
            forall|k: int|
                0 <= k < i ==> match #[trigger] iv[k].ledger_id {
                    Some(l) => has_genesis(iv, l),
                    None => true,
                },
        decreases infos@.len() - i,
    {
        match &infos[i].ledger_id {
            Some(l) => {
                let mut j: usize = 0;
                let mut found = false;
                while j < infos.len()
                    invariant
                        j <= infos@.len(),
                        iv == infos_view(infos@),
            iv == readable_infos(payload_views(payloads@)),
                        found ==> has_genesis(iv, l@),
                        !found ==> forall|k: int|
                            0 <= k < j ==> !(#[trigger] iv[k].ledger_id == Some(l@)
                                && iv[k].object_type == "genesis"@),
                    decreases infos@.len() - j,
                {
                    let same_ledger = match &infos[j].ledger_id {
                        Some(m) => str_eq(m.as_str(), l.as_str()),
                        None => false,
                    };
                    if same_ledger && str_eq(infos[j].object_type.as_str(), "genesis") {
                        assert(iv[j as int].ledger_id == Some(l@));
                        found = true;
                    }
                    j = j + 1;
                }
                if !found {
                    let d = concat("missing ledger-scoped genesis object for ledger ", l.as_str());
                    proof {
                        assert(iv[i as int].ledger_id == Some(l@));
                        assert(!has_genesis(iv, l@));
                        assert(ledger_without_genesis(iv, l@));
                        assert(d@ == genesis_diagnostic(l@));
                    }
                    return Some(d);
                }
            },
            None => {},
        }
        i = i + 1;
    }
    proof {
        assert forall|l: Seq<char>| !#[trigger] ledger_without_genesis(iv, l) by {
            if exists|k: int| 0 <= k < iv.len() && #[trigger] iv[k].ledger_id == Some(l) {
                let k = choose|k: int| 0 <= k < iv.len() && #[trigger] iv[k].ledger_id == Some(l);
                assert(has_genesis(iv, l));
            }
        }
    }
    None
}

} // verus!
