//! The actors an identity bundle carries, as `fact identity import` lists
//! them: every readable object of type `actor`, by its ID, in ID order.

use vstd::prelude::*;
use vstd::utf8::*;
use crate::errors::{FactError, Failure};
use crate::ids::{parse_uuid_text, uuid_parse_spec};
use crate::json::{get_str, json_bytes_parse, parse_json_bytes, str_member};
use crate::text::str_eq;

verus! {

broadcast use vstd::seq_lib::group_to_multiset_ensures;

/// The payload of a bundle object is a readable JSON document of type
/// `actor`. `None` stands for an object whose envelope could not be opened.
pub open spec fn actor_payload(p: Option<Seq<u8>>) -> bool {
    match p {
        Some(b) => match json_bytes_parse(b) {
            Ok(v) => str_member(v, "object_type"@) == Some("actor"@),
            Err(_) => false,
        },
        None => false,
    }
}

/// The ID an actor object gives itself, when it is a UUID.
pub open spec fn payload_actor_id(p: Option<Seq<u8>>) -> Option<u128> {
    match p {
        Some(b) => match json_bytes_parse(b) {
            Ok(v) => match str_member(v, "id"@) {
                Some(s) => uuid_parse_spec(encode_utf8(s)),
                None => None,
            },
            Err(_) => None,
        },
        None => None,
    }
}

/// The IDs of the actor objects, in bundle order.
pub open spec fn bundle_actor_ids(ps: Seq<Option<Seq<u8>>>) -> Seq<u128>
    decreases ps.len(),
{
    if ps.len() == 0 {
        Seq::empty()
    } else {
        let front = bundle_actor_ids(ps.drop_last());
        if actor_payload(ps.last()) {
            front.push(payload_actor_id(ps.last()).unwrap())
        } else {
            front
        }
    }
}

/// Some actor object does not give a UUID as its ID.
pub open spec fn has_invalid_actor(ps: Seq<Option<Seq<u8>>>) -> bool {
    exists|i: int|
        0 <= i < ps.len() && actor_payload(#[trigger] ps[i]) && payload_actor_id(ps[i]) is None
}

pub open spec fn nondecreasing(s: Seq<u128>) -> bool {
    forall|i: int, j: int| 0 <= i <= j < s.len() ==> s[i] <= s[j]
}

pub open spec fn payload_options(v: Seq<Option<Vec<u8>>>) -> Seq<Option<Seq<u8>>> {
    v.map_values(
        |p: Option<Vec<u8>>|
            match p {
                Some(b) => Some(b@),
                None => None,
            },
    )
}

/// Inserts `x` into a nondecreasing vector, after the elements not above it.
fn insert_in_order(v: &mut Vec<u128>, x: u128)
    requires
        nondecreasing(old(v)@),
    ensures
        nondecreasing(final(v)@),
        final(v)@.to_multiset() == old(v)@.to_multiset().insert(x),
{
    let mut i: usize = 0;
    while i < v.len() && v[i] <= x
        invariant
            i <= v@.len(),
            nondecreasing(v@),
            forall|k: int| 0 <= k < i ==> v@[k] <= x,
        decreases v@.len() - i,
    {
        i = i + 1;
    }
    let ghost before = v@;
    v.insert(i, x);
    proof {
        assert(v@ == before.insert(i as int, x));
        vstd::seq_lib::to_multiset_insert(before, i as int, x);
        assert forall|a: int, b: int| 0 <= a <= b < v@.len() implies v@[a] <= v@[b] by {
            if a < i && b == i {
            } else if a == i && b > i {
                assert(v@[b] == before[b - 1]);
                assert(i < before.len() ==> !(before[i as int] <= x));
                assert(before[i as int] <= before[b - 1]);
            } else if a > i {
                assert(v@[a] == before[a - 1] && v@[b] == before[b - 1]);
            } else if b > i {
                assert(v@[b] == before[b - 1]);
            }
        }
    }
}

/// The IDs of the actors an identity bundle carries, in ascending order.
/// `payloads` holds, per signed object of the bundle, its payload, or
/// `None` where its envelope could not be opened; objects that cannot be
/// read, or are not actors, are passed over.
pub fn identity_bundle_actor_ids(payloads: &Vec<Option<Vec<u8>>>) -> (r: Result<Vec<u128>, FactError>)
    ensures
        match r {
            Ok(ids) => {
                &&& !has_invalid_actor(payload_options(payloads@))
                &&& nondecreasing(ids@)
                &&& ids@.to_multiset() == bundle_actor_ids(payload_options(payloads@)).to_multiset()
            },
            Err(e) => has_invalid_actor(payload_options(payloads@)) && e@ == Failure::User(
                "identity bundle contains an invalid actor object"@,
            ),
        },
{
    let ghost ps = payload_options(payloads@);
    let mut ids: Vec<u128> = Vec::new();
    let mut i: usize = 0;
    while i < payloads.len()
        invariant
            i <= payloads@.len(),
            ps == payload_options(payloads@),
            ps.len() == payloads@.len(),
            nondecreasing(ids@),
            ids@.to_multiset() == bundle_actor_ids(ps.take(i as int)).to_multiset(),
            forall|k: int| 0 <= k < i ==> !(actor_payload(#[trigger] ps[k]) && payload_actor_id(ps[k]) is None),
        decreases payloads@.len() - i,
    {
        let ghost p = ps[i as int];
        assert(ps.take(i + 1).drop_last() =~= ps.take(i as int));
        assert(ps.take(i + 1).last() == p);
        match &payloads[i] {
            None => {
                assert(p is None);
            },
            Some(bytes) => {
                assert(p == Some(bytes@));
                match parse_json_bytes(bytes.as_slice()) {
                    Err(_) => {},
                    Ok(v) => {
                        let is_actor = match get_str(&v, "object_type") {
                            Some(t) => str_eq(t.as_str(), "actor"),
                            None => false,
                        };
                        if is_actor {
                            let id = match get_str(&v, "id") {
                                Some(text) => match parse_uuid_text(text.as_str()) {
                                    Ok(id) => id,
                                    Err(_) => {
                                        assert(actor_payload(ps[i as int]));
                                        return Err(
                                            FactError::User(
                                                "identity bundle contains an invalid actor object".to_owned(),
                                            ),
                                        );
                                    },
                                },
                                None => {
                                    assert(actor_payload(ps[i as int]));
                                    return Err(
                                        FactError::User(
                                            "identity bundle contains an invalid actor object".to_owned(),
                                        ),
                                    );
                                },
                            };
                            assert(payload_actor_id(p) == Some(id));
                            insert_in_order(&mut ids, id);
                        }
                    },
                }
            },
        }
        i = i + 1;
    }
    assert(ps.take(payloads@.len() as int) =~= ps);
    Ok(ids)
}

} // verus!
