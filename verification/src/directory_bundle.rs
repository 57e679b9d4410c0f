//! Narrowing a directory bundle to the events about given actors, as
//! `fact identity export` does before writing it.
//!
//! The bundle is read with `serde_json` and written back with its pretty
//! printer; which events stay is decided here.

use vstd::prelude::*;
use vstd::utf8::*;
use crate::errors::{FactError, Failure};
use crate::ids::{parse_uuid_text, uuid_parse_spec};
use crate::json::{
    Json, JsonValue, get_str, json_bytes_parse, json_pretty_text, lemma_object_value,
    object_members, parse_json_bytes, pretty_json, str_member,
};
use crate::text::{str_eq, text_bytes};

verus! {

/// The actor an event is about: its `target_id`, when that reads as a UUID.
pub open spec fn event_target(e: JsonValue) -> Option<u128> {
    match str_member(e, "target_id"@) {
        Some(s) => uuid_parse_spec(encode_utf8(s)),
        None => None,
    }
}

/// The events about one of the actors, in order.
pub open spec fn targeted(events: Seq<JsonValue>, ids: Seq<u128>) -> Seq<JsonValue>
    decreases events.len(),
{
    if events.len() == 0 {
        Seq::empty()
    } else {
        targeted(events.drop_last(), ids) + if event_target(events.last()) matches Some(a)
            && ids.contains(a) {
            seq![events.last()]
        } else {
            Seq::empty()
        }
    }
}

/// The position of the first member named `key`, or -1.
pub open spec fn key_index(ms: Seq<(Seq<char>, JsonValue)>, key: Seq<char>) -> int
    decreases ms.len(),
{
    if ms.len() == 0 {
        -1
    } else if ms[0].0 == key {
        0
    } else if key_index(ms.drop_first(), key) < 0 {
        -1
    } else {
        key_index(ms.drop_first(), key) + 1
    }
}

/// The bundle with its `events` replaced.
pub open spec fn with_events(v: JsonValue, events: Seq<JsonValue>) -> JsonValue {
    let ms = object_members(v);
    JsonValue::Object(ms.update(key_index(ms, "events"@), ("events"@, JsonValue::Array(events))))
}

/// What narrowing a bundle gives: the pretty text of the bundle with only
/// the events about the actors; nothing when no event is left; an error when
/// the bundle is not JSON, has no list of events, or cannot be printed.
pub open spec fn narrowed(bundle: Seq<u8>, ids: Seq<u128>) -> Result<Option<Seq<u8>>, Failure> {
    match json_bytes_parse(bundle) {
        Err(e) => Err(Failure::Json(e)),
        Ok(v) => match crate::json::member(v, "events"@) {
            Some(JsonValue::Array(evs)) => if targeted(evs, ids).len() == 0 {
                Ok(None)
            } else {
                match json_pretty_text(with_events(v, targeted(evs, ids))) {
                    Ok(t) => Ok(Some(encode_utf8(t))),
                    Err(e) => Err(Failure::Json(e)),
                }
            },
            _ => Err(Failure::User("directory bundle has no events"@)),
        },
    }
}

proof fn lemma_key_index(ms: Seq<(Seq<char>, JsonValue)>, key: Seq<char>, i: int)
    requires
        0 <= i <= ms.len(),
        forall|j: int| 0 <= j < i ==> (#[trigger] ms[j]).0 != key,
    ensures
        i < ms.len() && ms[i].0 == key ==> key_index(ms, key) == i && crate::json::member_of(
            ms,
            key,
        ) == Some(ms[i].1),
        i == ms.len() ==> key_index(ms, key) == -1 && crate::json::member_of(ms, key) is None,
    decreases i,
{
    if i > 0 {
        assert forall|j: int| 0 <= j < i - 1 implies (#[trigger] ms.drop_first()[j]).0 != key by {
            assert(ms.drop_first()[j] == ms[j + 1]);
        }
        assert(ms[0].0 != key);
        lemma_key_index(ms.drop_first(), key, i - 1);
        if i < ms.len() {
            assert(ms.drop_first()[i - 1] == ms[i]);
        }
    }
}

fn holds(ids: &[u128], x: u128) -> (r: bool)
    ensures
        r == ids@.contains(x),
{
    let mut i: usize = 0;
    while i < ids.len()
        invariant
            i <= ids@.len(),
            forall|j: int| 0 <= j < i ==> ids@[j] != x,
        decreases ids@.len() - i,
    {
        if ids[i] == x {
            assert(ids@[i as int] == x);
            return true;
        }
        i = i + 1;
    }
    false
}

fn is_targeted(e: &Json, ids: &[u128]) -> (r: bool)
    ensures
        r == (event_target(e@) matches Some(a) && ids@.contains(a)),
{
    match get_str(e, "target_id") {
        Some(s) => match parse_uuid_text(s.as_str()) {
            Ok(a) => holds(ids, a),
            Err(_) => false,
        },
        None => false,
    }
}

fn keep_targeted(events: Vec<Json>, ids: &[u128]) -> (r: Vec<Json>)
    ensures
        r@.map_values(|j: Json| j@) == targeted(events@.map_values(|j: Json| j@), ids@),
{
    let ghost all = events@.map_values(|j: Json| j@);
    let n = events.len();
    let mut rest = events;
    let mut out: Vec<Json> = Vec::new();
    let mut i: usize = 0;
    assert(all.take(0) =~= Seq::<JsonValue>::empty());
    while rest.len() > 0
        invariant
            i + rest@.len() == n,
            n == all.len(),
            forall|k: int| 0 <= k < rest@.len() ==> #[trigger] rest@[k]@ == all[i + k],
            out@.map_values(|j: Json| j@) == targeted(all.take(i as int), ids@),
        decreases rest@.len(),
    {
        let ghost before = rest@;
        let e = rest.remove(0);
        assert(rest@ =~= before.drop_first());
        assert(e@ == all[i as int]) by {
            assert(before[0]@ == all[i + 0]);
        }
        assert forall|k: int| 0 <= k < rest@.len() implies #[trigger] rest@[k]@ == all[(i + 1)
            + k] by {
            assert(rest@[k] == before[k + 1]);
        }
        assert(all.take(i + 1).drop_last() =~= all.take(i as int));
        assert(all.take(i + 1).last() == all[i as int]);
        let ghost prev = out@.map_values(|j: Json| j@);
        if is_targeted(&e, ids) {
            out.push(e);
            assert(out@.map_values(|j: Json| j@) =~= prev.push(all[i as int]));
        } else {
            assert(out@.map_values(|j: Json| j@) =~= prev);
        }
        i = i + 1;
    }
    assert(all.take(n as int) =~= all);
    out
}

fn no_events() -> (e: FactError)
    ensures
        e@ == Failure::User("directory bundle has no events"@),
{
    FactError::User("directory bundle has no events".to_owned())
}

/// Keeps only the events of a directory bundle whose target is one of the
/// actors, and prints the bundle again; `None` when no event is left.
pub fn filter_directory_bundle_for_actors(bundle: &[u8], actor_ids: &[u128]) -> (r: Result<
    Option<Vec<u8>>,
    FactError,
>)
    ensures
        match r {
            Ok(Some(b)) => narrowed(bundle@, actor_ids@) == Ok::<Option<Seq<u8>>, Failure>(
                Some(b@),
            ),
            Ok(None) => narrowed(bundle@, actor_ids@) == Ok::<Option<Seq<u8>>, Failure>(None),
            Err(e) => narrowed(bundle@, actor_ids@) == Err::<Option<Seq<u8>>, Failure>(e@),
        },
{
    let value = match parse_json_bytes(bundle) {
        Ok(v) => v,
        Err(e) => {
            return Err(FactError::Json(e));
        },
    };
    let ghost v = value@;
    let mut members = match value {
        Json::Object(members) => members,
        _ => {
            return Err(no_events());
        },
    };
    proof {
        lemma_object_value(&Json::Object(members), &members);
    }
    let ghost ms = object_members(v);
    assert(ms.len() == members@.len());
    assert(forall|k: int| 0 <= k < members@.len() ==> #[trigger] ms[k] == (members@[k].0@, members@[k].1@));
    let mut idx: usize = 0;
    while idx < members.len() && !str_eq(members[idx].0.as_str(), "events")
        invariant
            idx <= members@.len(),
            ms.len() == members@.len(),
            forall|k: int| 0 <= k < members@.len() ==> #[trigger] ms[k] == (members@[k].0@, members@[k].1@),
            forall|j: int| 0 <= j < idx ==> (#[trigger] ms[j]).0 != "events"@,
        decreases members@.len() - idx,
    {
        assert(ms[idx as int].0 == members@[idx as int].0@);
        idx = idx + 1;
    }
    proof {
        lemma_key_index(ms, "events"@, idx as int);
    }
    if idx == members.len() {
        return Err(no_events());
    }
    let ghost old_members = members@;
    let (key, events) = members.remove(idx);
    let items = match events {
        Json::Array(items) => items,
        _ => {
            return Err(no_events());
        },
    };
    proof {
        crate::json::lemma_array_value(&Json::Array(items), &items);
    }
    let ghost evs = crate::json::array_items(Json::Array(items)@);
    assert(items@.map_values(|j: Json| j@) =~= evs);
    let kept = keep_targeted(items, actor_ids);
    if kept.len() == 0 {
        return Ok(None);
    }
    let ghost kept_values = kept@.map_values(|j: Json| j@);
    members.insert(idx, (key, Json::Array(kept)));
    let narrowed_value = Json::Object(members);
    proof {
        let nv = narrowed_value@;
        let expected = with_events(v, kept_values);
        let inner = match nv {
            JsonValue::Object(s) => s,
            _ => Seq::empty(),
        };
        let want = match expected {
            JsonValue::Object(s) => s,
            _ => Seq::empty(),
        };
        assert(key@ == "events"@);
        assert(inner.len() == want.len());
        assert forall|k: int| 0 <= k < inner.len() implies inner[k] == want[k] by {
            if k != idx {
                assert(members@[k] == old_members[k]);
            } else {
                assert(JsonValue::Array(kept_values) == Json::Array(kept)@) by {
                    crate::json::lemma_array_value(&Json::Array(kept), &kept);
                    assert(crate::json::array_items(Json::Array(kept)@) =~= kept_values);
                }
            }
        }
        assert(inner =~= want);
    }
    match pretty_json(&narrowed_value) {
        Ok(t) => Ok(Some(text_bytes(t.as_str()))),
        Err(e) => Err(FactError::Json(e)),
    }
}

} // verus!
