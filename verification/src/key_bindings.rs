//! Finding an actor's signing key among the actor-key bindings of a ledger,
//! when the store keeps no binding for the actor directly: the latest
//! binding (the one with the greatest object ID) that binds the actor's ID
//! to a key for signing.

use vstd::prelude::*;
use vstd::utf8::*;
use crate::ids::{parse_uuid_text, uuid_hyphenated, uuid_parse_spec, uuid_text};
use crate::json::{JsonValue, get, get_str, json_bytes_parse, member, parse_json_bytes, str_member};
use crate::text::str_eq;

verus! {

/// A binding object: its object ID and its payload, or `None` where its
/// envelope could not be read.
pub struct BindingObject {
    pub binding_id: u128,
    pub payload: Option<Vec<u8>>,
}

/// The key a binding's body names, when the body binds `actor` for signing.
pub open spec fn body_signing_key(body: JsonValue, actor: u128) -> Option<u128> {
    if str_member(body, "actor_id"@) == Some(uuid_hyphenated(actor)) && str_member(
        body,
        "permitted_purpose"@,
    ) == Some("signing"@) {
        match str_member(body, "key_id"@) {
            Some(k) => uuid_parse_spec(encode_utf8(k)),
            None => None,
        }
    } else {
        None
    }
}

/// The signing key a binding gives `actor`, if it gives one.
pub open spec fn binding_signing_key(b: BindingObject, actor: u128) -> Option<u128> {
    match b.payload {
        Some(p) => match json_bytes_parse(p@) {
            Ok(v) => match member(v, "body"@) {
                Some(body) => body_signing_key(body, actor),
                None => None,
            },
            Err(_) => None,
        },
        None => None,
    }
}

/// Binding `i` gives `actor` a signing key, and no binding that does has a
/// greater ID, nor an equal one later in the list.
pub open spec fn latest_signing_binding(bs: Seq<BindingObject>, actor: u128, i: int) -> bool {
    &&& 0 <= i < bs.len()
    &&& binding_signing_key(bs[i], actor) is Some
    &&& forall|j: int|
        0 <= j < bs.len() && binding_signing_key(#[trigger] bs[j], actor) is Some ==> bs[j].binding_id
            <= bs[i].binding_id && (j > i ==> bs[j].binding_id < bs[i].binding_id)
}

fn signing_key_of(b: &BindingObject, actor: u128) -> (r: Option<u128>)
    ensures
        r == binding_signing_key(*b, actor),
{
    let payload = match &b.payload {
        Some(p) => p,
        None => {
            return None;
        },
    };
    let value = match parse_json_bytes(payload.as_slice()) {
        Ok(v) => v,
        Err(_) => {
            return None;
        },
    };
    let body = match get(&value, "body") {
        Some(body) => body,
        None => {
            return None;
        },
    };
    let actor_text = uuid_text(actor);
    let binds_actor = match get_str(body, "actor_id") {
        Some(a) => str_eq(a.as_str(), actor_text.as_str()),
        None => false,
    };
    let signing = match get_str(body, "permitted_purpose") {
        Some(p) => str_eq(p.as_str(), "signing"),
        None => false,
    };
    if !binds_actor || !signing {
        return None;
    }
    match get_str(body, "key_id") {
        Some(k) => match parse_uuid_text(k.as_str()) {
            Ok(id) => Some(id),
            Err(_) => None,
        },
        None => None,
    }
}

/// The signing key of the latest binding that binds `actor` for signing,
/// if any binding does.
pub fn signing_key_from_bindings(actor: u128, bindings: &Vec<BindingObject>) -> (r: Option<u128>)
    ensures
        match r {
            Some(k) => exists|i: int|
                #[trigger] latest_signing_binding(bindings@, actor, i) && binding_signing_key(
                    bindings@[i],
                    actor,
                ) == Some(k),
            None => forall|j: int|
                0 <= j < bindings@.len() ==> binding_signing_key(#[trigger] bindings@[j], actor) is None,
        },
{
    let ghost bs = bindings@;
    let mut best: Option<(u128, u128)> = None;
    let ghost mut best_at: int = 0;
    let mut i: usize = 0;
    while i < bindings.len()
        invariant
            i <= bs.len(),
            bs == bindings@,
            best is None ==> forall|j: int|
                0 <= j < i ==> binding_signing_key(#[trigger] bs[j], actor) is None,
            best matches Some((id, key)) ==> {
                &&& 0 <= best_at < i
                &&& bs[best_at].binding_id == id
                &&& binding_signing_key(bs[best_at], actor) == Some(key)
                &&& forall|j: int|
                    0 <= j < i && binding_signing_key(#[trigger] bs[j], actor) is Some
                        ==> bs[j].binding_id <= id && (j > best_at ==> bs[j].binding_id < id)
            },
        decreases bs.len() - i,
    {
        match signing_key_of(&bindings[i], actor) {
            Some(key) => {
                let id = bindings[i].binding_id;
                let take = match best {
                    Some((b, _)) => id >= b,
                    None => true,
                };
                if take {
                    best = Some((id, key));
                    proof {
                        best_at = i as int;
                    }
                }
            },
            None => {},
        }
        i = i + 1;
    }
    match best {
        Some((_, key)) => {
            assert(latest_signing_binding(bs, actor, best_at));
            Some(key)
        },
        None => None,
    }
}

} // verus!
