//! Invitations: where each one stands after its lifecycle events, which ones
//! were accepted, and how a list of them is shown.

use vstd::prelude::*;
use vstd::utf8::*;
use crate::bundles::uuid_member;
use crate::errors::{FactError, Failure};
use crate::ids::{parse_uuid_text, uuid_parse_spec};
use crate::json::{Json, JsonValue, array_items, get, get_str, json_bytes_parse, lemma_array_value, member, parse_json_bytes, str_member};
use crate::text::{concat_all, join, join_texts, lemma_concat_all_step, push_str, str_eq, texts};

verus! {

/// A lifecycle event of an invitation, as the store lists it.
pub struct LifecycleRow {
    pub object_id: u128,
    /// The invitation the store files the event under, if it does.
    pub target_id: Option<u128>,
    pub operation: String,
    /// The event's signed payload.
    pub payload: Vec<u8>,
}

/// One lifecycle event: its ID, its operation, and the events it follows.
pub struct EventView {
    pub object_id: u128,
    pub operation: Seq<char>,
    pub predecessors: Seq<u128>,
}

/// The UUIDs among the strings of an array, in order.
pub open spec fn uuids_of(items: Seq<JsonValue>) -> Seq<u128>
    decreases items.len(),
{
    if items.len() == 0 {
        Seq::empty()
    } else {
        let rest = uuids_of(items.drop_last());
        match items.last() {
            JsonValue::Str(s) => match uuid_parse_spec(encode_utf8(s)) {
                Some(u) => rest.push(u),
                None => rest,
            },
            _ => rest,
        }
    }
}

/// The body member of a payload, or nothing.
pub open spec fn body_of(v: JsonValue) -> Option<JsonValue> {
    member(v, "body"@)
}

/// The invitation an event belongs to: the store's target, else the
/// payload's `body.invitation_id`.
pub open spec fn event_invitation(target: Option<u128>, v: JsonValue) -> Option<u128> {
    match target {
        Some(t) => Some(t),
        None => match body_of(v) {
            Some(b) => uuid_member(b, "invitation_id"@),
            None => None,
        },
    }
}

/// The events an event follows: the UUIDs of `body.predecessor_lifecycle_ids`.
pub open spec fn event_predecessors(v: JsonValue) -> Seq<u128> {
    match body_of(v) {
        Some(b) => match member(b, "predecessor_lifecycle_ids"@) {
            Some(JsonValue::Array(items)) => uuids_of(items),
            _ => Seq::empty(),
        },
        None => Seq::empty(),
    }
}

/// The value of a row: its fields, with the payload as bytes.
pub struct RowView {
    pub object_id: u128,
    pub target_id: Option<u128>,
    pub operation: Seq<char>,
    pub payload: Seq<u8>,
}

pub open spec fn row_view(r: LifecycleRow) -> RowView {
    RowView {
        object_id: r.object_id,
        target_id: r.target_id,
        operation: r.operation@,
        payload: r.payload@,
    }
}

pub open spec fn row_views(rows: Seq<LifecycleRow>) -> Seq<RowView> {
    rows.map_values(|r: LifecycleRow| row_view(r))
}

/// The events of the rows, each with its invitation, in order; rows whose
/// invitation cannot be told are skipped, and the first payload that is not
/// JSON is the error.
pub open spec fn lifecycle_events(rows: Seq<RowView>) -> Result<Seq<(u128, EventView)>, Failure>
    decreases rows.len(),
{
    if rows.len() == 0 {
        Ok(Seq::empty())
    } else {
        match lifecycle_events(rows.drop_last()) {
            Err(e) => Err(e),
            Ok(events) => {
                let row = rows.last();
                match json_bytes_parse(row.payload) {
                    Err(e) => Err(Failure::Json(e)),
                    Ok(v) => match event_invitation(row.target_id, v) {
                        None => Ok(events),
                        Some(id) => Ok(
                            events.push(
                                (
                                    id,
                                    EventView {
                                        object_id: row.object_id,
                                        operation: row.operation,
                                        predecessors: event_predecessors(v),
                                    },
                                ),
                            ),
                        ),
                    },
                }
            },
        }
    }
}

/// The events of one invitation, in order.
pub open spec fn events_of(events: Seq<(u128, EventView)>, id: u128) -> Seq<EventView>
    decreases events.len(),
{
    if events.len() == 0 {
        Seq::empty()
    } else if events.last().0 == id {
        events_of(events.drop_last(), id).push(events.last().1)
    } else {
        events_of(events.drop_last(), id)
    }
}

/// Whether an event is followed by another event of the same invitation.
pub open spec fn superseded(events: Seq<EventView>, e: EventView) -> bool {
    exists|k: int| 0 <= k < events.len() && #[trigger] events[k].predecessors.contains(e.object_id)
}

/// The operations of the events that no other event follows, in order.
pub open spec fn tips(events: Seq<EventView>, all: Seq<EventView>) -> Seq<Seq<char>>
    decreases events.len(),
{
    if events.len() == 0 {
        Seq::empty()
    } else if superseded(all, events.last()) {
        tips(events.drop_last(), all)
    } else {
        tips(events.drop_last(), all).push(events.last().operation)
    }
}

/// Where an invitation stands: `active` with no open lifecycle event, the
/// operation of its one open event, or `conflict` when several are open.
pub open spec fn lifecycle_status(events: Seq<EventView>) -> Seq<char> {
    let t = tips(events, events);
    if t.len() == 0 {
        "active"@
    } else if t.len() == 1 {
        t[0]
    } else {
        "conflict"@
    }
}

/// The elements of `s` in order, each kept only where it does not occur
/// earlier.
pub open spec fn first_seen(s: Seq<u128>) -> Seq<u128>
    decreases s.len(),
{
    if s.len() == 0 {
        s
    } else if s.drop_last().contains(s.last()) {
        first_seen(s.drop_last())
    } else {
        first_seen(s.drop_last()).push(s.last())
    }
}

/// The invitations that events belong to, each once, in the order first met.
pub open spec fn invitations_of(events: Seq<(u128, EventView)>) -> Seq<u128> {
    first_seen(events.map_values(|p: (u128, EventView)| p.0))
}

/// Each invitation the events belong to, once, with its status.
pub open spec fn statuses_spec(events: Seq<(u128, EventView)>) -> Seq<(u128, Seq<char>)> {
    invitations_of(events).map_values(|id: u128| (id, lifecycle_status(events_of(events, id))))
}

proof fn lemma_first_seen_contains(s: Seq<u128>, x: u128)
    ensures
        first_seen(s).contains(x) <==> s.contains(x),
    decreases s.len(),
{
    if s.len() > 0 {
        lemma_first_seen_contains(s.drop_last(), x);
        if s.contains(x) {
            let k = choose|k: int| 0 <= k < s.len() && s[k] == x;
            if k < s.len() - 1 {
                assert(s.drop_last()[k] == x);
            }
        }
        if s.drop_last().contains(x) {
            let k = choose|k: int| 0 <= k < s.drop_last().len() && s.drop_last()[k] == x;
            assert(s[k] == x);
        }
        let f = first_seen(s.drop_last());
        if !s.drop_last().contains(s.last()) {
            if f.push(s.last()).contains(x) {
                let k = choose|k: int| 0 <= k < f.len() + 1 && f.push(s.last())[k] == x;
                if k < f.len() {
                    assert(f[k] == x);
                }
            }
            if f.contains(x) {
                let k = choose|k: int| 0 <= k < f.len() && f[k] == x;
                assert(f.push(s.last())[k] == x);
            }
            if x == s.last() {
                assert(f.push(s.last())[f.len() as int] == x);
                assert(s[s.len() - 1] == x);
            }
        } else if x == s.last() {
            assert(s[s.len() - 1] == x);
        }
    }
}

/// Whether some event of the invitation follows the given event.
pub open spec fn followed_in(all: Seq<(u128, EventView)>, id: u128, object: u128) -> bool {
    exists|k: int|
        0 <= k < all.len() && all[k].0 == id && #[trigger] all[k].1.predecessors.contains(object)
}

proof fn lemma_superseded_iff(all: Seq<(u128, EventView)>, id: u128, e: EventView)
    ensures
        superseded(events_of(all, id), e) == followed_in(all, id, e.object_id),
    decreases all.len(),
{
    if all.len() > 0 {
        let front = all.drop_last();
        lemma_superseded_iff(front, id, e);
        let f = events_of(front, id);
        let g = events_of(all, id);
        if superseded(g, e) {
            let m = choose|m: int| 0 <= m < g.len() && #[trigger] g[m].predecessors.contains(e.object_id);
            if m < f.len() {
                assert(g[m] == f[m]);
                assert(superseded(f, e));
                let k = choose|k: int|
                    0 <= k < front.len() && front[k].0 == id && #[trigger] front[k].1.predecessors.contains(e.object_id);
                assert(all[k] == front[k]);
            } else {
                assert(all[all.len() - 1].1.predecessors.contains(e.object_id));
            }
        }
        if followed_in(all, id, e.object_id) {
            let k = choose|k: int|
                0 <= k < all.len() && all[k].0 == id && #[trigger] all[k].1.predecessors.contains(e.object_id);
            if k < all.len() - 1 {
                assert(front[k] == all[k]);
                assert(followed_in(front, id, e.object_id));
                let m = choose|m: int| 0 <= m < f.len() && #[trigger] f[m].predecessors.contains(e.object_id);
                assert(g[m] == f[m]);
            } else {
                assert(g[g.len() - 1] == all[k].1);
            }
        }
    }
}

pub struct Event {
    pub invitation: u128,
    pub object_id: u128,
    pub operation: String,
    pub predecessors: Vec<u128>,
}

pub open spec fn event_pair(e: Event) -> (u128, EventView) {
    (
        e.invitation,
        EventView {
            object_id: e.object_id,
            operation: e.operation@,
            predecessors: e.predecessors@,
        },
    )
}

pub open spec fn event_pairs(v: Seq<Event>) -> Seq<(u128, EventView)> {
    v.map_values(|e: Event| event_pair(e))
}

fn uuid_list(items: &Vec<Json>) -> (r: Vec<u128>)
    ensures
        r@ == uuids_of(items@.map_values(|j: Json| j@)),
{
    let ghost all = items@.map_values(|j: Json| j@);
    let mut out: Vec<u128> = Vec::new();
    let mut i: usize = 0;
    while i < items.len()
        invariant
            i <= items@.len(),
            all == items@.map_values(|j: Json| j@),
            out@ == uuids_of(all.take(i as int)),
        decreases items@.len() - i,
    {
        assert(all.take(i + 1).drop_last() =~= all.take(i as int));
        assert(all.take(i + 1).last() == items@[i as int]@);
        match &items[i] {
            Json::Str(s) => match parse_uuid_text(s.as_str()) {
                Ok(u) => {
                    out.push(u);
                },
                Err(_) => {},
            },
            _ => {},
        }
        i = i + 1;
    }
    assert(all.take(items@.len() as int) =~= all);
    out
}

fn predecessors_of(v: &Json) -> (r: Vec<u128>)
    ensures
        r@ == event_predecessors(v@),
{
    match get(v, "body") {
        Some(b) => match get(b, "predecessor_lifecycle_ids") {
            Some(p) => match p {
                Json::Array(items) => {
                    proof {
                        lemma_array_value(p, items);
                        assert(array_items(p@) =~= items@.map_values(|j: Json| j@));
                    }
                    uuid_list(items)
                },
                _ => Vec::new(),
            },
            None => Vec::new(),
        },
        None => Vec::new(),
    }
}

fn invitation_of(target: Option<u128>, v: &Json) -> (r: Option<u128>)
    ensures
        r == event_invitation(target, v@),
{
    match target {
        Some(t) => Some(t),
        None => match get(v, "body") {
            Some(b) => match get_str(b, "invitation_id") {
                Some(s) => match parse_uuid_text(s.as_str()) {
                    Ok(u) => Some(u),
                    Err(_) => None,
                },
                None => None,
            },
            None => None,
        },
    }
}

/// The lifecycle events of the rows.
pub fn lifecycle_events_of(rows: &Vec<LifecycleRow>) -> (r: Result<Vec<Event>, FactError>)
    ensures
        match r {
            Ok(v) => lifecycle_events(row_views(rows@)) == Ok::<Seq<(u128, EventView)>, Failure>(
                event_pairs(v@),
            ),
            Err(e) => lifecycle_events(row_views(rows@)) == Err::<Seq<(u128, EventView)>, Failure>(
                e@,
            ),
        },
{
    let ghost rv = row_views(rows@);
    let mut out: Vec<Event> = Vec::new();
    let mut i: usize = 0;
    assert(rv.take(0) =~= Seq::<RowView>::empty());
    assert(event_pairs(out@) =~= Seq::<(u128, EventView)>::empty());
    while i < rows.len()
        invariant
            i <= rows@.len(),
            rv == row_views(rows@),
            lifecycle_events(rv.take(i as int)) == Ok::<Seq<(u128, EventView)>, Failure>(
                event_pairs(out@),
            ),
        decreases rows@.len() - i,
    {
        assert(rv.take(i + 1).drop_last() =~= rv.take(i as int));
        assert(rv.take(i + 1).last() == row_view(rows@[i as int]));
        let row = &rows[i];
        let value = match parse_json_bytes(row.payload.as_slice()) {
            Ok(v) => v,
            Err(e) => {
                proof {
                    lemma_events_error_stays(rv, i as int + 1);
                }
                return Err(FactError::Json(e));
            },
        };
        match invitation_of(row.target_id, &value) {
            Some(id) => {
                let ghost before = event_pairs(out@);
                let e = Event {
                    invitation: id,
                    object_id: row.object_id,
                    operation: row.operation.clone(),
                    predecessors: predecessors_of(&value),
                };
                out.push(e);
                assert(event_pairs(out@) =~= before.push(event_pair(out@[out@.len() - 1])));
            },
            None => {},
        }
        i = i + 1;
    }
    assert(rv.take(rows@.len() as int) =~= rv);
    Ok(out)
}

proof fn lemma_events_error_stays(rows: Seq<RowView>, n: int)
    requires
        0 <= n <= rows.len(),
        lifecycle_events(rows.take(n)) is Err,
    ensures
        lifecycle_events(rows) == lifecycle_events(rows.take(n)),
    decreases rows.len(),
{
    if n < rows.len() {
        assert(rows.drop_last().take(n) =~= rows.take(n));
        lemma_events_error_stays(rows.drop_last(), n);
    } else {
        assert(rows.take(n) =~= rows);
    }
}

fn holds_u128(v: &Vec<u128>, x: u128) -> (r: bool)
    ensures
        r == v@.contains(x),
{
    let mut i: usize = 0;
    while i < v.len()
        invariant
            i <= v@.len(),
            forall|j: int| 0 <= j < i ==> v@[j] != x,
        decreases v@.len() - i,
    {
        if v[i] == x {
            assert(v@[i as int] == x);
            return true;
        }
        i = i + 1;
    }
    false
}

/// The status of one invitation from all the events.
fn status_for(events: &Vec<Event>, id: u128) -> (s: String)
    ensures
        s@ == lifecycle_status(events_of(event_pairs(events@), id)),
{
    let ghost all = event_pairs(events@);
    let ghost mine = events_of(all, id);
    let mut tip_ops: Vec<String> = Vec::new();
    let mut i: usize = 0;
    while i < events.len()
        invariant
            i <= events@.len(),
            all == event_pairs(events@),
            mine == events_of(all, id),
            texts(tip_ops@) == tips(events_of(all.take(i as int), id), mine),
        decreases events@.len() - i,
    {
        assert(all.take(i + 1).drop_last() =~= all.take(i as int));
        assert(all.take(i + 1).last() == event_pair(events@[i as int]));
        let e = &events[i];
        if e.invitation == id {
            let mut followed = false;
            let mut j: usize = 0;
            while j < events.len()
                invariant
                    j <= events@.len(),
                    all == event_pairs(events@),
                    mine == events_of(all, id),
                    followed == exists|k: int|
                        0 <= k < j && events@[k].invitation == id
                            && #[trigger] events@[k].predecessors@.contains(e.object_id),
                decreases events@.len() - j,
            {
                if events[j].invitation == id && holds_u128(&events[j].predecessors, e.object_id) {
                    followed = true;
                }
                j = j + 1;
            }
            proof {
                lemma_superseded_iff(all, id, event_pair(events@[i as int]).1);
                if followed {
                    let k = choose|k: int|
                        0 <= k < j && events@[k].invitation == id
                            && #[trigger] events@[k].predecessors@.contains(e.object_id);
                    assert(all[k].1.predecessors.contains(e.object_id));
                }
                if followed_in(all, id, e.object_id) {
                    let k = choose|k: int|
                        0 <= k < all.len() && all[k].0 == id && #[trigger] all[k].1.predecessors.contains(e.object_id);
                    assert(events@[k].predecessors@.contains(e.object_id));
                }
                assert(followed == superseded(mine, event_pair(events@[i as int]).1));
                let es = events_of(all.take(i + 1), id);
                assert(es == events_of(all.take(i as int), id).push(event_pair(events@[i as int]).1));
                assert(es.drop_last() =~= events_of(all.take(i as int), id));
            }
            if !followed {
                let ghost before = texts(tip_ops@);
                tip_ops.push(e.operation.clone());
                assert(texts(tip_ops@) =~= before.push(e.operation@));
            }
        }
        i = i + 1;
    }
    assert(all.take(events@.len() as int) =~= all);
    if tip_ops.len() == 0 {
        "active".to_owned()
    } else if tip_ops.len() == 1 {
        tip_ops[0].clone()
    } else {
        "conflict".to_owned()
    }
}

/// Where each invitation named by the rows stands after its lifecycle
/// events: each invitation once, in the order first met, with its status.
pub fn invitation_lifecycle_statuses(rows: &Vec<LifecycleRow>) -> (r: Result<Vec<(u128, String)>, FactError>)
    ensures
        match lifecycle_events(row_views(rows@)) {
            Ok(events) => r matches Ok(out) && out@.map_values(|p: (u128, String)| (p.0, p.1@))
                == statuses_spec(events),
            Err(f) => r matches Err(e) && e@ == f,
        },
{
    let events = lifecycle_events_of(rows)?;
    let ghost all = event_pairs(events@);
    let ghost keys = all.map_values(|p: (u128, EventView)| p.0);
    let mut out: Vec<(u128, String)> = Vec::new();
    let mut ids: Vec<u128> = Vec::new();
    let mut i: usize = 0;
    assert(keys.take(0) =~= Seq::<u128>::empty());
    while i < events.len()
        invariant
            i <= events@.len(),
            all == event_pairs(events@),
            keys == all.map_values(|p: (u128, EventView)| p.0),
            ids@ == first_seen(keys.take(i as int)),
            out@.map_values(|p: (u128, String)| (p.0, p.1@)) == ids@.map_values(
                |id: u128| (id, lifecycle_status(events_of(all, id))),
            ),
        decreases events@.len() - i,
    {
        let id = events[i].invitation;
        let ghost prefix = keys.take(i + 1);
        assert(prefix.drop_last() =~= keys.take(i as int));
        assert(prefix.last() == id);
        proof {
            lemma_first_seen_contains(keys.take(i as int), id);
        }
        if !holds_u128(&ids, id) {
            let status = status_for(&events, id);
            let ghost before_out = out@.map_values(|p: (u128, String)| (p.0, p.1@));
            let ghost before_ids = ids@;
            ids.push(id);
            out.push((id, status));
            assert(out@.map_values(|p: (u128, String)| (p.0, p.1@)) =~= before_out.push(
                (id, lifecycle_status(events_of(all, id))),
            ));
            assert(ids@.map_values(|id: u128| (id, lifecycle_status(events_of(all, id))))
                =~= before_ids.map_values(|id: u128| (id, lifecycle_status(events_of(all, id)))).push(
                (id, lifecycle_status(events_of(all, id))),
            ));
        }
        i = i + 1;
    }
    assert(keys.take(events@.len() as int) =~= keys);
    Ok(out)
}

/// The invitation a participant-change payload accepts: its
/// `body.invitation_id` when `body.operation` is `join`.
pub open spec fn joined_invitation(v: JsonValue) -> Option<u128> {
    match body_of(v) {
        Some(b) => if str_member(b, "operation"@) == Some("join"@) {
            uuid_member(b, "invitation_id"@)
        } else {
            None
        },
        None => None,
    }
}

/// The invitations accepted by the participant-change payloads, in order
/// and with repeats, or the first payload that is not JSON.
pub open spec fn joined_invitations(payloads: Seq<Seq<u8>>) -> Result<Seq<u128>, Failure>
    decreases payloads.len(),
{
    if payloads.len() == 0 {
        Ok(Seq::empty())
    } else {
        match joined_invitations(payloads.drop_last()) {
            Err(e) => Err(e),
            Ok(ids) => match json_bytes_parse(payloads.last()) {
                Err(e) => Err(Failure::Json(e)),
                Ok(v) => match joined_invitation(v) {
                    Some(id) => Ok(ids.push(id)),
                    None => Ok(ids),
                },
            },
        }
    }
}

pub open spec fn payload_seqs(v: Seq<Vec<u8>>) -> Seq<Seq<u8>> {
    v.map_values(|p: Vec<u8>| p@)
}

proof fn lemma_joined_error_stays(p: Seq<Seq<u8>>, n: int)
    requires
        0 <= n <= p.len(),
        joined_invitations(p.take(n)) is Err,
    ensures
        joined_invitations(p) == joined_invitations(p.take(n)),
    decreases p.len(),
{
    if n < p.len() {
        assert(p.drop_last().take(n) =~= p.take(n));
        lemma_joined_error_stays(p.drop_last(), n);
    } else {
        assert(p.take(n) =~= p);
    }
}

/// The invitations accepted by the given participant-change payloads, each
/// once, in the order first met.
pub fn accepted_invitation_ids(payloads: &Vec<Vec<u8>>) -> (r: Result<Vec<u128>, FactError>)
    ensures
        match joined_invitations(payload_seqs(payloads@)) {
            Ok(ids) => r matches Ok(v) && v@ == first_seen(ids),
            Err(f) => r matches Err(e) && e@ == f,
        },
{
    let ghost ps = payload_seqs(payloads@);
    let ghost mut joined: Seq<u128> = Seq::empty();
    let mut accepted: Vec<u128> = Vec::new();
    let mut i: usize = 0;
    assert(ps.take(0) =~= Seq::<Seq<u8>>::empty());
    while i < payloads.len()
        invariant
            i <= payloads@.len(),
            ps == payload_seqs(payloads@),
            joined_invitations(ps.take(i as int)) == Ok::<Seq<u128>, Failure>(joined),
            accepted@ == first_seen(joined),
        decreases payloads@.len() - i,
    {
        assert(ps.take(i + 1).drop_last() =~= ps.take(i as int));
        assert(ps.take(i + 1).last() == payloads@[i as int]@);
        let value = match parse_json_bytes(payloads[i].as_slice()) {
            Ok(v) => v,
            Err(e) => {
                proof {
                    lemma_joined_error_stays(ps, i as int + 1);
                }
                return Err(FactError::Json(e));
            },
        };
        let joined_id = match get(&value, "body") {
            Some(body) => match get_str(body, "operation") {
                Some(op) => {
                    if str_eq(op.as_str(), "join") {
                        match get_str(body, "invitation_id") {
                            Some(s) => match parse_uuid_text(s.as_str()) {
                                Ok(u) => Some(u),
                                Err(_) => None,
                            },
                            None => None,
                        }
                    } else {
                        None
                    }
                },
                None => None,
            },
            None => None,
        };
        assert(joined_id == joined_invitation(value@));
        match joined_id {
            Some(id) => {
                proof {
                    lemma_first_seen_contains(joined, id);
                }
                if !holds_u128(&accepted, id) {
                    accepted.push(id);
                }
                proof {
                    assert(joined.push(id).drop_last() =~= joined);
                    joined = joined.push(id);
                }
            },
            None => {},
        }
        i = i + 1;
    }
    assert(ps.take(payloads@.len() as int) =~= ps);
    Ok(accepted)
}

/// How one invitation is listed: reference, direction, status, proposition
/// reference and summary.
pub open spec fn invitation_line(v: JsonValue) -> Seq<char> {
    or_dash(str_member(v, "reference"@)) + "  "@ + or_dash(str_member(v, "direction"@)) + "  "@
        + or_dash(str_member(v, "status"@)) + "  "@ + or_dash(str_member(v, "proposition_ref"@))
        + "  "@ + match str_member(v, "proposition_summary"@) {
        Some(s) => s,
        None => "No summary"@,
    }
}

pub open spec fn or_dash(o: Option<Seq<char>>) -> Seq<char> {
    match o {
        Some(s) => s,
        None => "-"@,
    }
}

/// How a list of invitations is shown: one line each, or `no invitations`.
pub open spec fn invitations_list_text(items: Seq<JsonValue>) -> Seq<char> {
    if items.len() == 0 {
        "no invitations"@
    } else {
        join(items.map_values(|v: JsonValue| invitation_line(v)), "\n"@)
    }
}

fn member_or(v: &Json, key: &str, fallback: &str) -> (r: String)
    ensures
        r@ == match str_member(v@, key@) {
            Some(s) => s,
            None => fallback@,
        },
{
    match get_str(v, key) {
        Some(s) => s,
        None => fallback.to_owned(),
    }
}

/// Shows a list of invitations.
pub fn format_invitations_list(invitations: &Vec<Json>) -> (r: String)
    ensures
        r@ == invitations_list_text(invitations@.map_values(|j: Json| j@)),
{
    if invitations.len() == 0 {
        return "no invitations".to_owned();
    }
    let ghost all = invitations@.map_values(|j: Json| j@);
    let ghost want = all.map_values(|v: JsonValue| invitation_line(v));
    let mut lines: Vec<String> = Vec::new();
    let mut i: usize = 0;
    while i < invitations.len()
        invariant
            i <= invitations@.len(),
            all == invitations@.map_values(|j: Json| j@),
            want == all.map_values(|v: JsonValue| invitation_line(v)),
            texts(lines@) == want.take(i as int),
        decreases invitations@.len() - i,
    {
        let v = &invitations[i];
        let mut line = member_or(v, "reference", "-");
        push_str(&mut line, "  ");
        push_str(&mut line, member_or(v, "direction", "-").as_str());
        push_str(&mut line, "  ");
        push_str(&mut line, member_or(v, "status", "-").as_str());
        push_str(&mut line, "  ");
        push_str(&mut line, member_or(v, "proposition_ref", "-").as_str());
        push_str(&mut line, "  ");
        push_str(&mut line, member_or(v, "proposition_summary", "No summary").as_str());
        proof {
            assert(all[i as int] == v@);
            assert(line@ =~= invitation_line(v@));
        }
        let ghost before = texts(lines@);
        lines.push(line);
        assert(texts(lines@) =~= before.push(want[i as int]));
        assert(want.take(i + 1) =~= want.take(i as int).push(want[i as int]));
        i = i + 1;
    }
    assert(want.take(invitations@.len() as int) =~= want);
    join_texts(&lines, "\n")
}

/// The `Next:` lines of an invitation: each string of `next_actions`, or a
/// note that none is available when the list is empty or missing.
pub open spec fn invitation_next_text(v: JsonValue) -> Seq<char> {
    let actions = match member(v, "next_actions"@) {
        Some(JsonValue::Array(xs)) => xs,
        _ => Seq::empty(),
    };
    if actions.len() == 0 {
        "\nNext:\n  no invitation actions available\n"@
    } else {
        "\nNext:\n"@ + concat_all(actions.map_values(|a: JsonValue| action_line(a)))
    }
}

/// The line for a next action that is a string; other values show nothing.
pub open spec fn action_line(a: JsonValue) -> Seq<char> {
    match a {
        JsonValue::Str(s) => "  "@ + s + "\n"@,
        _ => Seq::empty(),
    }
}

/// How one invitation is shown. `from` and `to` are the shown references of
/// its inviting and invited actors, when those members are strings.
pub open spec fn invitation_show_text(
    v: JsonValue,
    from: Option<Seq<char>>,
    to: Option<Seq<char>>,
) -> Seq<char> {
    "Invitation "@ + or_dash(str_member(v, "reference"@)) + "\n\nStatus:       "@ + or_dash(
        str_member(v, "status"@),
    ) + "\nDirection:    "@ + or_dash(str_member(v, "direction"@)) + "\nProposition:  "@ + or_dash(
        str_member(v, "proposition_ref"@),
    ) + "  "@ + match str_member(v, "proposition_summary"@) {
        Some(s) => s,
        None => "No summary"@,
    } + "\nRevision:     "@ + or_dash(str_member(v, "revision_ref"@)) + "\nDeliberation: "@ + or_dash(
        str_member(v, "deliberation_ref"@),
    ) + "\nFrom:         "@ + or_dash(from) + "\nTo:           "@ + or_dash(to) + "\nCreated:      "@
        + or_dash(str_member(v, "created_at"@)) + "\n"@ + invitation_next_text(v)
}

fn invitation_next_lines(v: &Json) -> (r: String)
    ensures
        r@ == invitation_next_text(v@),
{
    let mut r = String::new();
    let mut shown = false;
    match get(v, "next_actions") {
        Some(a) => match a {
            Json::Array(items) => {
                if items.len() > 0 {
                    proof {
                        lemma_array_value(a, items);
                    }
                    shown = true;
                    push_str(&mut r, "\nNext:\n");
                    let ghost xs = array_items(a@);
                    let ghost head = r@;
                    let ghost parts = xs.map_values(|x: JsonValue| action_line(x));
                    let mut i: usize = 0;
                    assert(parts.take(0) =~= Seq::<Seq<char>>::empty());
                    assert(r@ =~= head + concat_all(parts.take(0)));
                    while i < items.len()
                        invariant
                            i <= items@.len(),
                            xs.len() == items@.len(),
                            forall|k: int| 0 <= k < items@.len() ==> #[trigger] xs[k] == items@[k]@,
                            parts == xs.map_values(|x: JsonValue| action_line(x)),
                            r@ == head + concat_all(parts.take(i as int)),
                        decreases items@.len() - i,
                    {
                        proof {
                            lemma_concat_all_step(parts, i as int);
                        }
                        assert(xs[i as int] == items@[i as int]@);
                        match &items[i] {
                            Json::Str(s) => {
                                push_str(&mut r, "  ");
                                push_str(&mut r, s.as_str());
                                push_str(&mut r, "\n");
                            },
                            _ => {},
                        }
                        assert(r@ =~= head + concat_all(parts.take(i + 1)));
                        i = i + 1;
                    }
                    assert(parts.take(items@.len() as int) =~= parts);
                }
            },
            _ => {},
        },
        None => {},
    }
    if !shown {
        push_str(&mut r, "\nNext:\n  no invitation actions available\n");
    }
    proof {
        assert(r@ =~= invitation_next_text(v@));
    }
    r
}

fn or_dash_text(o: &Option<String>) -> (r: String)
    ensures
        r@ == or_dash(match o {
            Some(s) => Some(s@),
            None => None,
        }),
{
    match o {
        Some(s) => s.clone(),
        None => "-".to_owned(),
    }
}

/// Shows one invitation: its fields, then the actions available on it.
pub fn format_invitation_show(invitation: &Json, from: &Option<String>, to: &Option<String>) -> (r: String)
    ensures
        r@ == invitation_show_text(
            invitation@,
            match from {
                Some(s) => Some(s@),
                None => None,
            },
            match to {
                Some(s) => Some(s@),
                None => None,
            },
        ),
{
    let v = invitation;
    let mut r = "Invitation ".to_owned();
    push_str(&mut r, member_or(v, "reference", "-").as_str());
    push_str(&mut r, "\n\nStatus:       ");
    push_str(&mut r, member_or(v, "status", "-").as_str());
    push_str(&mut r, "\nDirection:    ");
    push_str(&mut r, member_or(v, "direction", "-").as_str());
    push_str(&mut r, "\nProposition:  ");
    push_str(&mut r, member_or(v, "proposition_ref", "-").as_str());
    push_str(&mut r, "  ");
    push_str(&mut r, member_or(v, "proposition_summary", "No summary").as_str());
    push_str(&mut r, "\nRevision:     ");
    push_str(&mut r, member_or(v, "revision_ref", "-").as_str());
    push_str(&mut r, "\nDeliberation: ");
    push_str(&mut r, member_or(v, "deliberation_ref", "-").as_str());
    push_str(&mut r, "\nFrom:         ");
    push_str(&mut r, or_dash_text(from).as_str());
    push_str(&mut r, "\nTo:           ");
    push_str(&mut r, or_dash_text(to).as_str());
    push_str(&mut r, "\nCreated:      ");
    push_str(&mut r, member_or(v, "created_at", "-").as_str());
    push_str(&mut r, "\n");
    push_str(&mut r, invitation_next_lines(v).as_str());
    proof {
        assert(r@ =~= invitation_show_text(
            v@,
            match from {
                Some(s) => Some(s@),
                None => None,
            },
            match to {
                Some(s) => Some(s@),
                None => None,
            },
        ));
    }
    r
}

/// An invitation's status as listed: `accepted` once joined; `closed` when
/// still active but its deliberation is settled; else its lifecycle label
/// (`active` when it has no lifecycle event).
pub open spec fn listed_status(accepted: bool, lifecycle: Option<Seq<char>>, settled: bool) -> Seq<char> {
    let label = crate::display::status_label(
        match lifecycle {
            Some(l) => l,
            None => "active"@,
        },
    );
    if accepted {
        "accepted"@
    } else if label == "active"@ && settled {
        "closed"@
    } else {
        label
    }
}

/// Decides an invitation's listed status.
pub fn invitation_listed_status(accepted: bool, lifecycle: Option<&str>, settled: bool) -> (r: String)
    ensures
        r@ == listed_status(
            accepted,
            match lifecycle {
                Some(l) => Some(l@),
                None => None,
            },
            settled,
        ),
{
    let label = crate::display::invitation_status_label(
        match lifecycle {
            Some(l) => l,
            None => "active",
        },
    );
    if accepted {
        "accepted".to_owned()
    } else if str_eq(label.as_str(), "active") && settled {
        "closed".to_owned()
    } else {
        label
    }
}

/// Whether the active actor received an invitation, sent it, or neither.
pub open spec fn direction_of(invited: Option<u128>, inviting: Option<u128>, active: u128) -> Seq<char> {
    if invited == Some(active) {
        "received"@
    } else if inviting == Some(active) {
        "sent"@
    } else {
        "other"@
    }
}

/// Decides an invitation's direction.
pub fn invitation_direction(invited: Option<u128>, inviting: Option<u128>, active: u128) -> (r: &'static str)
    ensures
        r@ == direction_of(invited, inviting, active),
{
    if invited == Some(active) {
        "received"
    } else if inviting == Some(active) {
        "sent"
    } else {
        "other"
    }
}

/// What the invited actor can do with an invitation that is still active:
/// accept, reject or join it; nothing otherwise.
pub open spec fn next_actions_of(status: Seq<char>, received: bool, reference: Seq<char>) -> Seq<Seq<char>> {
    if status == "active"@ && received {
        seq![
            "fact invitations accept "@ + reference,
            "fact invitations reject "@ + reference,
            "fact join "@ + reference,
        ]
    } else {
        Seq::empty()
    }
}

/// The actions listed for an invitation, by its short reference.
pub fn invitation_next_actions(status: &str, received: bool, reference: &str) -> (r: Vec<String>)
    ensures
        texts(r@) == next_actions_of(status@, received, reference@),
{
    let mut r: Vec<String> = Vec::new();
    if str_eq(status, "active") && received {
        r.push(crate::text::concat("fact invitations accept ", reference));
        r.push(crate::text::concat("fact invitations reject ", reference));
        r.push(crate::text::concat("fact join ", reference));
    }
    assert(texts(r@) =~= next_actions_of(status@, received, reference@));
    r
}

/// Which invitations a listing shows.
#[derive(Clone, Copy, Debug, PartialEq, Eq, Structural)]
pub enum InvitationListScope {
    All,
    Sent,
    Received,
    Pending,
}

/// Whether an invitation belongs to a listing: all; those the active actor
/// sent; those it received; or those it received that are still active.
pub open spec fn in_scope(
    scope: InvitationListScope,
    invited: Option<u128>,
    inviting: Option<u128>,
    active: u128,
    status: Option<Seq<char>>,
) -> bool {
    match scope {
        InvitationListScope::All => true,
        InvitationListScope::Sent => inviting == Some(active),
        InvitationListScope::Received => invited == Some(active),
        InvitationListScope::Pending => invited == Some(active) && status == Some("active"@),
    }
}

/// Decides whether an invitation belongs to a listing.
pub fn invitation_in_scope(
    scope: InvitationListScope,
    invited: Option<u128>,
    inviting: Option<u128>,
    active: u128,
    status: Option<&str>,
) -> (r: bool)
    ensures
        r == in_scope(
            scope,
            invited,
            inviting,
            active,
            match status {
                Some(t) => Some(t@),
                None => None,
            },
        ),
{
    match scope {
        InvitationListScope::All => true,
        InvitationListScope::Sent => inviting == Some(active),
        InvitationListScope::Received => invited == Some(active),
        InvitationListScope::Pending => invited == Some(active) && match status {
            Some(t) => str_eq(t, "active"),
            None => false,
        },
    }
}

proof fn lemma_first_seen_distinct(s: Seq<u128>)
    ensures
        first_seen(s).no_duplicates(),
    decreases s.len(),
{
    if s.len() > 0 {
        lemma_first_seen_distinct(s.drop_last());
        lemma_first_seen_contains(s.drop_last(), s.last());
    }
}

/// Each invitation that has lifecycle events gets exactly one status.
pub proof fn law_one_status_per_invitation(events: Seq<(u128, EventView)>, id: u128)
    ensures
        invitations_of(events).no_duplicates(),
        invitations_of(events).contains(id) <==> exists|k: int|
            0 <= k < events.len() && #[trigger] events[k].0 == id,
        statuses_spec(events).len() == invitations_of(events).len(),
{
    let keys = events.map_values(|p: (u128, EventView)| p.0);
    lemma_first_seen_distinct(keys);
    lemma_first_seen_contains(keys, id);
    if keys.contains(id) {
        let k = choose|k: int| 0 <= k < keys.len() && keys[k] == id;
        assert(events[k].0 == id);
    }
    if exists|k: int| 0 <= k < events.len() && #[trigger] events[k].0 == id {
        let k = choose|k: int| 0 <= k < events.len() && #[trigger] events[k].0 == id;
        assert(keys[k] == id);
    }
}

/// The listings keep what their names say: `received` exactly the
/// invitations whose invited actor is the active actor, `sent` exactly those
/// it sent, `pending` those received that are still active, and `all`
/// everything. An invitation the active actor sent to someone else is never
/// received or pending.
pub proof fn law_invitation_scopes_follow_the_active_actor(
    invited: Option<u128>,
    inviting: Option<u128>,
    active: u128,
    status: Option<Seq<char>>,
)
    ensures
        in_scope(InvitationListScope::Received, invited, inviting, active, status) <==> invited
            == Some(active),
        in_scope(InvitationListScope::Sent, invited, inviting, active, status) <==> inviting == Some(
            active,
        ),
        in_scope(InvitationListScope::Pending, invited, inviting, active, status) <==> (invited
            == Some(active) && status == Some("active"@)),
        in_scope(InvitationListScope::All, invited, inviting, active, status),
        invited != Some(active) ==> !in_scope(
            InvitationListScope::Received,
            invited,
            inviting,
            active,
            status,
        ) && !in_scope(InvitationListScope::Pending, invited, inviting, active, status),
{
}

} // verus!
