//! `fact ledger show`: the proposition counts of a ledger, and the human
//! text of a ledger and of its actors.

use vstd::prelude::*;
use crate::display::{counts_text, format_ledger_proposition_counts};
use crate::json::{
    Json, JsonValue, array_items, get, get_str, lemma_array_value, member, str_member, str_of,
};
use crate::text::{
    concat, concat_all, ends_with, has_suffix, join, join_texts, lemma_concat_all_step, push_str,
    str_eq, substring, texts,
};

verus! {

/// The suffix of a display status whose proposition has an update pending.
pub open spec fn update_suffix() -> Seq<char> {
    ", update pending"@
}

/// Every trailing copy of a non-empty pattern removed:
/// `str::trim_end_matches` with a string pattern.
pub open spec fn strip_suffixes(s: Seq<char>, p: Seq<char>) -> Seq<char>
    decreases s.len(),
{
    if p.len() > 0 && has_suffix(s, p) {
        strip_suffixes(s.take(s.len() - p.len()), p)
    } else {
        s
    }
}

/// Whether a display status has an update pending.
pub open spec fn update_pending(s: Seq<char>) -> bool {
    has_suffix(s, update_suffix())
}

/// Whether a display status counts under a settled status word: the status
/// itself, or the status with its update-pending suffixes removed.
pub open spec fn counts_under(s: Seq<char>, word: Seq<char>) -> bool {
    s == word || (update_pending(s) && strip_suffixes(s, update_suffix()) == word)
}

/// Whether a display status counts as contested (`contested` or `conflict`).
pub open spec fn counts_contested(s: Seq<char>) -> bool {
    counts_under(s, "contested"@) || counts_under(s, "conflict"@)
}

/// How many statuses pass a test.
pub open spec fn count_where(statuses: Seq<Seq<char>>, f: spec_fn(Seq<char>) -> bool) -> nat
    decreases statuses.len(),
{
    if statuses.len() == 0 {
        0
    } else {
        count_where(statuses.drop_last(), f) + if f(statuses.last()) {
            1nat
        } else {
            0
        }
    }
}

proof fn lemma_count_where_bound(statuses: Seq<Seq<char>>, f: spec_fn(Seq<char>) -> bool)
    ensures
        count_where(statuses, f) <= statuses.len(),
    decreases statuses.len(),
{
    if statuses.len() > 0 {
        lemma_count_where_bound(statuses.drop_last(), f);
    }
}

/// How many propositions of a ledger have each display status.
#[derive(Clone, Copy, Debug, PartialEq, Eq)]
pub struct PropositionCounts {
    pub total: usize,
    pub accepted: usize,
    pub pending: usize,
    pub rejected: usize,
    pub contested: usize,
    pub withdrawn: usize,
    pub archived: usize,
    pub update_pending: usize,
}

/// The counts of a list of display statuses.
pub open spec fn counts_spec(statuses: Seq<Seq<char>>, c: PropositionCounts) -> bool {
    &&& c.total == statuses.len()
    &&& c.accepted == count_where(statuses, |s: Seq<char>| counts_under(s, "accepted"@))
    &&& c.pending == count_where(statuses, |s: Seq<char>| counts_under(s, "pending"@))
    &&& c.rejected == count_where(statuses, |s: Seq<char>| counts_under(s, "rejected"@))
    &&& c.contested == count_where(statuses, |s: Seq<char>| counts_contested(s))
    &&& c.withdrawn == count_where(statuses, |s: Seq<char>| s == "withdrawn"@)
    &&& c.archived == count_where(statuses, |s: Seq<char>| s == "archived"@)
    &&& c.update_pending == count_where(statuses, |s: Seq<char>| update_pending(s))
}

fn strip_update_suffixes(s: &str) -> (r: String)
    ensures
        r@ == strip_suffixes(s@, update_suffix()),
{
    proof {
        reveal_strlit(", update pending");
    }
    let plen = crate::text::char_len(", update pending");
    let mut r = s.to_owned();
    assert(strip_suffixes(r@, update_suffix()) == strip_suffixes(s@, update_suffix()));
    while ends_with(r.as_str(), ", update pending")
        invariant
            strip_suffixes(r@, update_suffix()) == strip_suffixes(s@, update_suffix()),
            plen == update_suffix().len(),
            plen > 0,
        decreases r@.len(),
    {
        let n = crate::text::char_len(r.as_str());
        let cut = substring(r.as_str(), 0, n - plen);
        assert(r@.subrange(0, n - plen) =~= r@.take(r@.len() - update_suffix().len()));
        r = cut;
    }
    r
}

fn settled_word(s: &str, word: &str) -> (r: bool)
    ensures
        r == counts_under(s@, word@),
{
    if str_eq(s, word) {
        return true;
    }
    if ends_with(s, ", update pending") {
        let base = strip_update_suffixes(s);
        str_eq(base.as_str(), word)
    } else {
        false
    }
}

/// Counts a ledger's propositions by display status; a status with an
/// update pending counts there and under its settled status.
pub fn ledger_proposition_counts(statuses: &Vec<String>) -> (c: PropositionCounts)
    ensures
        counts_spec(texts(statuses@), c),
{
    let ghost all = texts(statuses@);
    let mut c = PropositionCounts {
        total: statuses.len(),
        accepted: 0,
        pending: 0,
        rejected: 0,
        contested: 0,
        withdrawn: 0,
        archived: 0,
        update_pending: 0,
    };
    let mut i: usize = 0;
    assert(all.take(0) =~= Seq::<Seq<char>>::empty());
    while i < statuses.len()
        invariant
            i <= statuses@.len(),
            all == texts(statuses@),
            c.total == all.len(),
            counts_spec(
                all.take(i as int),
                PropositionCounts { total: i, ..c },
            ),
        decreases statuses@.len() - i,
    {
        let s = statuses[i].as_str();
        let ghost prefix = all.take(i as int);
        assert(all.take(i + 1).drop_last() =~= prefix);
        assert(all.take(i + 1).last() == s@);
        proof {
            lemma_count_where_bound(prefix, |s: Seq<char>| counts_under(s, "accepted"@));
            lemma_count_where_bound(prefix, |s: Seq<char>| counts_under(s, "pending"@));
            lemma_count_where_bound(prefix, |s: Seq<char>| counts_under(s, "rejected"@));
            lemma_count_where_bound(prefix, |s: Seq<char>| counts_contested(s));
            lemma_count_where_bound(prefix, |s: Seq<char>| s == "withdrawn"@);
            lemma_count_where_bound(prefix, |s: Seq<char>| s == "archived"@);
            lemma_count_where_bound(prefix, |s: Seq<char>| update_pending(s));
        }
        if settled_word(s, "accepted") {
            c.accepted = c.accepted + 1;
        }
        if settled_word(s, "pending") {
            c.pending = c.pending + 1;
        }
        if settled_word(s, "rejected") {
            c.rejected = c.rejected + 1;
        }
        if settled_word(s, "contested") || settled_word(s, "conflict") {
            c.contested = c.contested + 1;
        }
        if str_eq(s, "withdrawn") {
            c.withdrawn = c.withdrawn + 1;
        }
        if str_eq(s, "archived") {
            c.archived = c.archived + 1;
        }
        if ends_with(s, ", update pending") {
            c.update_pending = c.update_pending + 1;
        }
        i = i + 1;
    }
    assert(all.take(statuses@.len() as int) =~= all);
    c
}

/// The counts as the JSON object the ledger summary carries, its keys in
/// sorted order.
pub open spec fn counts_json(c: PropositionCounts) -> JsonValue {
    JsonValue::Object(
        seq![
            ("accepted"@, JsonValue::Number(crate::text::decimal(c.accepted as nat))),
            ("archived"@, JsonValue::Number(crate::text::decimal(c.archived as nat))),
            ("contested"@, JsonValue::Number(crate::text::decimal(c.contested as nat))),
            ("pending"@, JsonValue::Number(crate::text::decimal(c.pending as nat))),
            ("rejected"@, JsonValue::Number(crate::text::decimal(c.rejected as nat))),
            ("total"@, JsonValue::Number(crate::text::decimal(c.total as nat))),
            ("update_pending"@, JsonValue::Number(crate::text::decimal(c.update_pending as nat))),
            ("withdrawn"@, JsonValue::Number(crate::text::decimal(c.withdrawn as nat))),
        ],
    )
}

fn number(n: usize) -> (j: Json)
    ensures
        j@ == JsonValue::Number(crate::text::decimal(n as nat)),
{
    Json::Number(crate::text::decimal_text(n))
}

/// The counts as a JSON object.
pub fn proposition_counts_json(c: &PropositionCounts) -> (j: Json)
    ensures
        j@ == counts_json(*c),
{
    let members: Vec<(String, Json)> = vec![
        ("accepted".to_owned(), number(c.accepted)),
        ("archived".to_owned(), number(c.archived)),
        ("contested".to_owned(), number(c.contested)),
        ("pending".to_owned(), number(c.pending)),
        ("rejected".to_owned(), number(c.rejected)),
        ("total".to_owned(), number(c.total)),
        ("update_pending".to_owned(), number(c.update_pending)),
        ("withdrawn".to_owned(), number(c.withdrawn)),
    ];
    let j = Json::Object(members);
    proof {
        let inner = match j@ {
            JsonValue::Object(s) => s,
            _ => Seq::empty(),
        };
        let expected = match counts_json(*c) {
            JsonValue::Object(s) => s,
            _ => Seq::empty(),
        };
        assert(inner =~= expected);
    }
    j
}

/// The strings of a list, skipping other values.
pub open spec fn strings_of(items: Seq<JsonValue>) -> Seq<Seq<char>>
    decreases items.len(),
{
    if items.len() == 0 {
        Seq::empty()
    } else {
        strings_of(items.drop_last()) + match str_of(items.last()) {
            Some(s) => seq![s],
            None => Seq::empty(),
        }
    }
}

/// The capabilities part of an actor line: two spaces and the string
/// capabilities joined by commas, when there are any.
pub open spec fn capabilities_part(item: JsonValue) -> Seq<char> {
    if joined_capabilities(item).len() > 0 {
        "  "@ + joined_capabilities(item)
    } else {
        Seq::empty()
    }
}

pub open spec fn or_text(o: Option<Seq<char>>, fallback: Seq<char>) -> Seq<char> {
    match o {
        Some(s) => s,
        None => fallback,
    }
}

/// The line for an actor of a ledger.
pub open spec fn actor_item_line(item: JsonValue) -> Seq<char> {
    or_text(str_member(item, "actor_ref"@), Seq::empty()) + "  "@ + or_text(
        str_member(item, "key_ref"@),
        "-"@,
    ) + "  "@ + or_text(str_member(item, "display_name"@), "No name"@) + "  "@ + or_text(
        str_member(item, "alias"@),
        "No alias"@,
    ) + capabilities_part(item) + if member(item, "active"@) == Some(JsonValue::Bool(true)) {
        "  active"@
    } else {
        Seq::empty()
    } + "\n"@
}

/// The human text of a ledger's actors: a line each, or `no actors`.
pub open spec fn actor_items_text(items: Seq<JsonValue>) -> Seq<char> {
    if items.len() == 0 {
        "no actors\n"@
    } else {
        concat_all(items.map_values(|v: JsonValue| actor_item_line(v)))
    }
}

fn member_or(v: &Json, key: &str, fallback: &str) -> (r: String)
    ensures
        r@ == or_text(str_member(v@, key@), fallback@),
{
    match get_str(v, key) {
        Some(s) => s,
        None => fallback.to_owned(),
    }
}

/// The string capabilities of an item joined by commas (empty when it has
/// no list of them).
pub open spec fn joined_capabilities(item: JsonValue) -> Seq<char> {
    match member(item, "capabilities"@) {
        Some(JsonValue::Array(xs)) => join(strings_of(xs), ", "@),
        _ => Seq::empty(),
    }
}

fn joined_capabilities_text(item: &Json) -> (r: String)
    ensures
        r@ == joined_capabilities(item@),
{
    match get(item, "capabilities") {
        Some(c) => match c {
            Json::Array(xs) => {
                proof {
                    lemma_array_value(c, xs);
                }
                let ghost vs = array_items(c@);
                let mut names: Vec<String> = Vec::new();
                let mut i: usize = 0;
                assert(vs.take(0) =~= Seq::<JsonValue>::empty());
                while i < xs.len()
                    invariant
                        i <= xs@.len(),
                        vs.len() == xs@.len(),
                        forall|k: int| 0 <= k < xs@.len() ==> #[trigger] vs[k] == xs@[k]@,
                        texts(names@) == strings_of(vs.take(i as int)),
                    decreases xs@.len() - i,
                {
                    assert(vs.take(i + 1).drop_last() =~= vs.take(i as int));
                    assert(vs.take(i + 1).last() == xs@[i as int]@);
                    let ghost before = names@;
                    match &xs[i] {
                        Json::Str(s) => {
                            names.push(s.clone());
                            assert(texts(names@) =~= texts(before).push(s@));
                        },
                        _ => {},
                    }
                    i = i + 1;
                }
                assert(vs.take(xs@.len() as int) =~= vs);
                join_texts(&names, ", ")
            },
            _ => String::new(),
        },
        None => String::new(),
    }
}

fn capabilities_text(item: &Json) -> (r: String)
    ensures
        r@ == capabilities_part(item@),
{
    let joined = joined_capabilities_text(item);
    if crate::text::char_len(joined.as_str()) > 0 {
        concat("  ", joined.as_str())
    } else {
        String::new()
    }
}

fn is_true(v: &Json, key: &str) -> (r: bool)
    ensures
        r == (member(v@, key@) == Some(JsonValue::Bool(true))),
{
    match get(v, key) {
        Some(b) => match b {
            Json::Bool(t) => *t,
            _ => false,
        },
        None => false,
    }
}

fn actor_item_text(item: &Json) -> (r: String)
    requires
        str_member(item@, "actor_ref"@) is Some,
    ensures
        r@ == actor_item_line(item@),
{
    let mut r = member_or(item, "actor_ref", "");
    push_str(&mut r, "  ");
    push_str(&mut r, member_or(item, "key_ref", "-").as_str());
    push_str(&mut r, "  ");
    push_str(&mut r, member_or(item, "display_name", "No name").as_str());
    push_str(&mut r, "  ");
    push_str(&mut r, member_or(item, "alias", "No alias").as_str());
    push_str(&mut r, capabilities_text(item).as_str());
    if is_true(item, "active") {
        push_str(&mut r, "  active");
    }
    push_str(&mut r, "\n");
    assert(r@ =~= actor_item_line(item@));
    r
}

/// The human text of a ledger's actors. Every actor carries its short
/// reference.
pub fn actor_identity_items_text(items: &Vec<Json>) -> (r: String)
    requires
        forall|k: int| 0 <= k < items@.len() ==> str_member(#[trigger] items@[k]@, "actor_ref"@) is Some,
    ensures
        r@ == actor_items_text(items@.map_values(|j: Json| j@)),
{
    if items.len() == 0 {
        return "no actors\n".to_owned();
    }
    let ghost vs = items@.map_values(|j: Json| j@);
    let ghost parts = vs.map_values(|v: JsonValue| actor_item_line(v));
    let mut r = String::new();
    let mut i: usize = 0;
    assert(parts.take(0) =~= Seq::<Seq<char>>::empty());
    while i < items.len()
        invariant
            i <= items@.len(),
            vs == items@.map_values(|j: Json| j@),
            parts == vs.map_values(|v: JsonValue| actor_item_line(v)),
            forall|k: int| 0 <= k < items@.len() ==> str_member(#[trigger] items@[k]@, "actor_ref"@) is Some,
            r@ == concat_all(parts.take(i as int)),
        decreases items@.len() - i,
    {
        proof {
            lemma_concat_all_step(parts, i as int);
        }
        let line = actor_item_text(&items[i]);
        push_str(&mut r, line.as_str());
        i = i + 1;
    }
    assert(parts.take(items@.len() as int) =~= parts);
    r
}

/// The actors listed in a ledger summary, when it holds a list.
pub open spec fn summary_actors(v: JsonValue) -> Seq<JsonValue> {
    match member(v, "actors"@) {
        Some(JsonValue::Array(xs)) => xs,
        _ => Seq::empty(),
    }
}

pub open spec fn bool_text(b: bool) -> Seq<char> {
    if b {
        "true"@
    } else {
        "false"@
    }
}

/// A boolean member, false when it is not a boolean.
pub open spec fn flag_of(v: JsonValue, key: Seq<char>) -> bool {
    member(v, key) == Some(JsonValue::Bool(true))
}

/// The human text of a ledger summary.
pub open spec fn ledger_show_text(v: JsonValue) -> Seq<char> {
    "ledger        "@ + or_text(str_member(v, "name"@), "-"@) + "  "@ + or_text(
        str_member(v, "ledger_ref"@),
        "-"@,
    ) + "\n"@ + "database      "@ + or_text(str_member(v, "database"@), "-"@) + "\n"@
        + "read only     "@ + bool_text(flag_of(v, "read_only"@)) + "\n"@ + "active        "@
        + bool_text(flag_of(v, "active"@)) + "\n"@ + "remotes       "@ + crate::text::decimal(
        crate::display::count_of(v, "remote_count"@) as nat,
    ) + "\n"@ + "propositions  "@ + counts_text(
        match member(v, "propositions"@) {
            Some(p) => p,
            None => JsonValue::Null,
        },
    ) + "\n"@ + "actors\n"@ + actor_items_text(summary_actors(v))
}

/// The human text of a ledger summary: its fields, then its actors. Every
/// listed actor carries its short reference.
pub fn ledger_show_human(value: &Json) -> (r: String)
    requires
        forall|k: int|
            0 <= k < summary_actors(value@).len() ==> str_member(
                #[trigger] summary_actors(value@)[k],
                "actor_ref"@,
            ) is Some,
    ensures
        r@ == ledger_show_text(value@),
{
    let mut r = "ledger        ".to_owned();
    push_str(&mut r, member_or(value, "name", "-").as_str());
    push_str(&mut r, "  ");
    push_str(&mut r, member_or(value, "ledger_ref", "-").as_str());
    push_str(&mut r, "\n");
    push_str(&mut r, "database      ");
    push_str(&mut r, member_or(value, "database", "-").as_str());
    push_str(&mut r, "\n");
    push_str(&mut r, "read only     ");
    push_str(&mut r, if is_true(value, "read_only") { "true" } else { "false" });
    push_str(&mut r, "\n");
    push_str(&mut r, "active        ");
    push_str(&mut r, if is_true(value, "active") { "true" } else { "false" });
    push_str(&mut r, "\n");
    push_str(&mut r, "remotes       ");
    push_str(&mut r, crate::display::count_text(value, "remote_count").as_str());
    push_str(&mut r, "\n");
    push_str(&mut r, "propositions  ");
    let counts = match get(value, "propositions") {
        Some(p) => format_ledger_proposition_counts(p),
        None => format_ledger_proposition_counts(&Json::Null),
    };
    push_str(&mut r, counts.as_str());
    push_str(&mut r, "\n");
    push_str(&mut r, "actors\n");
    let actors = match get(value, "actors") {
        Some(a) => match a {
            Json::Array(xs) => {
                proof {
                    lemma_array_value(a, xs);
                    assert(xs@.map_values(|j: Json| j@) =~= summary_actors(value@));
                    assert forall|k: int| 0 <= k < xs@.len() implies str_member(
                        #[trigger] xs@[k]@,
                        "actor_ref"@,
                    ) is Some by {
                        assert(summary_actors(value@)[k] == xs@[k]@);
                    }
                }
                actor_identity_items_text(xs)
            },
            _ => "no actors\n".to_owned(),
        },
        None => "no actors\n".to_owned(),
    };
    push_str(&mut r, actors.as_str());
    assert(r@ =~= ledger_show_text(value@));
    r
}

/// The capabilities of an actor as its summary shows them: the string
/// capabilities joined by commas, or `none`.
pub open spec fn shown_capabilities(item: JsonValue) -> Seq<char> {
    if joined_capabilities(item).len() > 0 {
        joined_capabilities(item)
    } else {
        "none"@
    }
}

/// The human text of one actor of a ledger.
pub open spec fn actor_show_text(v: JsonValue) -> Seq<char> {
    or_text(str_member(v, "actor_ref"@), "-"@) + "  "@ + or_text(
        str_member(v, "display_name"@),
        "unnamed"@,
    ) + "\nkey: "@ + or_text(str_member(v, "key_ref"@), "-"@) + "\npersona: "@ + or_text(
        str_member(v, "persona"@),
        "-"@,
    ) + "\ncapabilities: "@ + shown_capabilities(v)
}

/// Shows one actor of a ledger: reference and name, key, persona and
/// capabilities.
pub fn actor_identity_show_human(value: &Json) -> (r: String)
    ensures
        r@ == actor_show_text(value@),
{
    let joined = joined_capabilities_text(value);
    let shown = if crate::text::char_len(joined.as_str()) > 0 {
        joined
    } else {
        "none".to_owned()
    };
    let mut r = member_or(value, "actor_ref", "-");
    push_str(&mut r, "  ");
    push_str(&mut r, member_or(value, "display_name", "unnamed").as_str());
    push_str(&mut r, "\nkey: ");
    push_str(&mut r, member_or(value, "key_ref", "-").as_str());
    push_str(&mut r, "\npersona: ");
    push_str(&mut r, member_or(value, "persona", "-").as_str());
    push_str(&mut r, "\ncapabilities: ");
    push_str(&mut r, shown.as_str());
    assert(r@ =~= actor_show_text(value@));
    r
}

} // verus!
