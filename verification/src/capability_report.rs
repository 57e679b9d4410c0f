//! `fact capabilities`: which capabilities the active actor holds, by the
//! grants found for each, and the text that lists them beside all the
//! capabilities that can be granted.

use vstd::prelude::*;
use crate::actor_identity::{text_array, texts_json};
use crate::capabilities::{
    capability_listing, grantable_capabilities, grantable_descriptions, grantable_names, listing_line,
};
use crate::json::{Json, JsonValue, item_views, lemma_array_view, lemma_object_view, member_views};
use crate::text::contains_text;
use crate::text::{concat_all, lemma_concat_all_step, push_str, texts};

verus! {

/// A capability the active actor holds, with the short references of the
/// grants that give it.
pub struct HeldCapability {
    pub name: String,
    pub grant_refs: Vec<String>,
}

pub open spec fn held_view(h: HeldCapability) -> (Seq<char>, Seq<Seq<char>>) {
    (h.name@, texts(h.grant_refs@))
}

pub open spec fn held_views(v: Seq<HeldCapability>) -> Seq<(Seq<char>, Seq<Seq<char>>)> {
    v.map_values(|h: HeldCapability| held_view(h))
}

pub open spec fn refs_views(v: Seq<Vec<String>>) -> Seq<Seq<Seq<char>>> {
    v.map_values(|r: Vec<String>| texts(r@))
}

/// Of the first `n` grantable capabilities, those with at least one grant,
/// in listing order, each with its grant references.
pub open spec fn held_from(refs: Seq<Seq<Seq<char>>>, n: nat) -> Seq<(Seq<char>, Seq<Seq<char>>)>
    decreases n,
{
    if n == 0 {
        Seq::empty()
    } else {
        let before = held_from(refs, (n - 1) as nat);
        if refs[n - 1].len() > 0 {
            before.push((grantable_names()[n - 1], refs[n - 1]))
        } else {
            before
        }
    }
}

/// The capabilities held, from the grant references found for each
/// grantable capability, given in listing order.
pub fn held_capabilities(grant_refs: Vec<Vec<String>>) -> (held: Vec<HeldCapability>)
    requires
        grant_refs@.len() == grantable_names().len(),
    ensures
        held_views(held@) == held_from(refs_views(grant_refs@), grantable_names().len()),
{
    let ghost all = refs_views(grant_refs@);
    let names: Vec<&str> = vec![
        "propose",
        "deliberate",
        "invite",
        "comment",
        "accept",
        "reject",
        "withdraw",
        "archive",
        "admin",
    ];
    proof {
        assert forall|j: int| 0 <= j < 9 implies names@[j]@ == #[trigger] grantable_names()[j] by {
            reveal_strlit("propose");
            reveal_strlit("deliberate");
            reveal_strlit("invite");
            reveal_strlit("comment");
            reveal_strlit("accept");
            reveal_strlit("reject");
            reveal_strlit("withdraw");
            reveal_strlit("archive");
            reveal_strlit("admin");
        }
    }
    let mut rest = grant_refs;
    let mut held: Vec<HeldCapability> = Vec::new();
    let mut i: usize = 0;
    while i < 9
        invariant
            i <= 9,
            names@.len() == 9,
            grantable_names().len() == 9,
            all.len() == 9,
            forall|j: int| 0 <= j < 9 ==> names@[j]@ == #[trigger] grantable_names()[j],
            rest@.len() == 9 - i,
            forall|k: int| 0 <= k < rest@.len() ==> texts((#[trigger] rest@[k])@) == all[i + k],
            held_views(held@) == held_from(all, i as nat),
        decreases 9 - i,
    {
        let ghost before = rest@;
        let refs = rest.remove(0);
        assert(texts(refs@) == all[i as int]) by {
            assert(before[0] == refs);
        }
        assert forall|k: int| 0 <= k < rest@.len() implies texts((#[trigger] rest@[k])@) == all[(i
            + 1) + k] by {
            assert(rest@[k] == before[k + 1]);
        }
        if refs.len() > 0 {
            let ghost prev = held_views(held@);
            let entry = HeldCapability { name: names[i].to_owned(), grant_refs: refs };
            held.push(entry);
            assert(held_views(held@) =~= prev.push((grantable_names()[i as int], all[i as int])));
        }
        i = i + 1;
    }
    held
}

/// Lines, each followed by a line feed.
pub open spec fn line_block(lines: Seq<Seq<char>>) -> Seq<char> {
    concat_all(lines.map_values(|l: Seq<char>| l + "\n"@))
}

/// The listing of all grantable capabilities, those named marked as held.
pub open spec fn listing_lines(held_names: Seq<Seq<char>>) -> Seq<Seq<char>> {
    Seq::new(
        grantable_names().len(),
        |i: int|
            listing_line(
                grantable_names()[i],
                grantable_descriptions()[i],
                held_names.contains(grantable_names()[i]),
            ),
    )
}

/// The active actor as `fact capabilities` reports it.
pub struct ActiveCapabilities {
    /// The actor's ID, as the ledger entry keeps it.
    pub actor_id: String,
    /// The short reference of the actor's ID.
    pub actor_ref: String,
    /// The name of the ledger.
    pub ledger_name: String,
    /// The ledger's ID, as the ledger entry keeps it.
    pub ledger_id: String,
    pub held: Vec<HeldCapability>,
}

pub open spec fn held_names(held: Seq<HeldCapability>) -> Seq<Seq<char>> {
    Seq::new(held.len(), |k: int| held[k].name@)
}

/// Each name indented by two spaces.
pub open spec fn indented_names(names: Seq<Seq<char>>) -> Seq<Seq<char>> {
    Seq::new(names.len(), |k: int| "  "@ + names[k])
}

/// What `fact capabilities` prints: the active actor's capabilities, when
/// there is one, then all grantable capabilities, the held ones marked.
pub open spec fn capabilities_text_spec(active: Option<ActiveCapabilities>) -> Seq<char> {
    match active {
        Some(a) => {
            let names = held_names(a.held@);
            "Active actor capabilities for "@ + a.actor_ref@ + " ("@ + a.ledger_name@ + ")\n\n"@
                + (if names.len() == 0 {
                "  none\n"@
            } else {
                line_block(indented_names(names))
            }) + "\n"@ + "Available capabilities\n\n"@ + line_block(listing_lines(names))
                + "\n"@ + "* held by the active actor\n\n"@
        },
        None => "Available capabilities\n\n"@ + line_block(listing_lines(Seq::empty())) + "\n"@,
    }
}

fn push_line_block(out: &mut String, lines: &Vec<String>)
    ensures
        final(out)@ == old(out)@ + line_block(texts(lines@)),
{
    let ghost ls = texts(lines@).map_values(|l: Seq<char>| l + "\n"@);
    let mut i: usize = 0;
    while i < lines.len()
        invariant
            i <= lines@.len(),
            ls == texts(lines@).map_values(|l: Seq<char>| l + "\n"@),
            out@ == old(out)@ + concat_all(ls.take(i as int)),
        decreases lines@.len() - i,
    {
        proof {
            lemma_concat_all_step(ls, i as int);
        }
        push_str(out, lines[i].as_str());
        push_str(out, "\n");
        i = i + 1;
    }
    assert(ls.take(lines@.len() as int) =~= ls);
}

/// The text `fact capabilities` prints for a person.
pub fn capabilities_text(active: &Option<ActiveCapabilities>) -> (s: String)
    ensures
        s@ == capabilities_text_spec(*active),
{
    let mut names: Vec<String> = Vec::new();
    let mut out = String::new();
    match active {
        Some(a) => {
            let mut i: usize = 0;
            while i < a.held.len()
                invariant
                    i <= a.held@.len(),
                    texts(names@) == held_names(a.held@).take(i as int),
                decreases a.held@.len() - i,
            {
                let name = a.held[i].name.clone();
                assert(name@ == a.held@[i as int].name@);
                let ghost before = names@;
                names.push(name);
                assert(texts(names@) =~= texts(before).push(name@));
                assert(held_names(a.held@).take(i + 1) =~= held_names(a.held@).take(i as int).push(
                    a.held@[i as int].name@,
                ));
                assert(texts(names@) =~= held_names(a.held@).take(i + 1));
                i = i + 1;
            }
            assert(held_names(a.held@).take(a.held@.len() as int) =~= held_names(a.held@));
            push_str(&mut out, "Active actor capabilities for ");
            push_str(&mut out, a.actor_ref.as_str());
            push_str(&mut out, " (");
            push_str(&mut out, a.ledger_name.as_str());
            push_str(&mut out, ")\n\n");
            if names.len() == 0 {
                push_str(&mut out, "  none\n");
            } else {
                let mut marked: Vec<String> = Vec::new();
                let mut j: usize = 0;
                while j < names.len()
                    invariant
                        j <= names@.len(),
                        texts(marked@) == indented_names(texts(names@).take(j as int)),
                    decreases names@.len() - j,
                {
                    let mut line = "  ".to_owned();
                    push_str(&mut line, names[j].as_str());
                    let ghost before = marked@;
                    marked.push(line);
                    assert(texts(marked@) =~= texts(before).push(line@));
                    assert(texts(names@)[j as int] == names@[j as int]@);
                    assert(indented_names(texts(names@).take(j + 1)) =~= indented_names(
                        texts(names@).take(j as int),
                    ).push("  "@ + names@[j as int]@));
                    assert(texts(marked@) =~= indented_names(texts(names@).take(j + 1)));
                    j = j + 1;
                }
                assert(texts(names@).take(names@.len() as int) =~= texts(names@));
                push_line_block(&mut out, &marked);
            }
            push_str(&mut out, "\n");
        },
        None => {},
    }
    push_str(&mut out, "Available capabilities\n\n");
    let listing = capability_listing(&names);
    assert(texts(listing@) =~= listing_lines(texts(names@)));
    push_line_block(&mut out, &listing);
    push_str(&mut out, "\n");
    if active.is_some() {
        push_str(&mut out, "* held by the active actor\n\n");
    }
    proof {
        match active {
            Some(a) => {
                assert(texts(names@) == held_names(a.held@));
                assert(out@ =~= capabilities_text_spec(*active));
            },
            None => {
                assert(texts(names@) =~= Seq::<Seq<char>>::empty());
                assert(out@ =~= capabilities_text_spec(*active));
            },
        }
    }
    out
}

/// A grantable capability as the JSON of `fact capabilities` lists it.
pub open spec fn capability_entry_spec(i: int, held: Seq<Seq<char>>) -> JsonValue {
    JsonValue::Object(
        seq![
            ("name"@, JsonValue::Str(grantable_names()[i])),
            ("description"@, JsonValue::Str(grantable_descriptions()[i])),
            ("privileged"@, JsonValue::Bool(i == 8)),
            ("held"@, JsonValue::Bool(held.contains(grantable_names()[i]))),
        ],
    )
}

/// A held capability with the grants that give it.
pub open spec fn grant_entry_spec(h: HeldCapability) -> JsonValue {
    JsonValue::Object(
        seq![
            ("capability"@, JsonValue::Str(h.name@)),
            ("grant_refs"@, texts_json(texts(h.grant_refs@))),
        ],
    )
}

/// The active actor as the JSON of `fact capabilities` shows it.
pub open spec fn active_actor_spec(a: ActiveCapabilities) -> JsonValue {
    JsonValue::Object(
        seq![
            ("ledger"@, JsonValue::Str(a.ledger_name@)),
            ("ledger_id"@, JsonValue::Str(a.ledger_id@)),
            ("actor_id"@, JsonValue::Str(a.actor_id@)),
            ("actor_ref"@, JsonValue::Str(a.actor_ref@)),
            ("capabilities"@, texts_json(held_names(a.held@))),
            ("grants"@, JsonValue::Array(
                Seq::new(a.held@.len(), |i: int| grant_entry_spec(a.held@[i])),
            )),
        ],
    )
}

/// The notes `fact capabilities` adds to its JSON.
pub open spec fn capability_notes() -> Seq<Seq<char>> {
    seq![
        "`admin` is highly privileged because it can authorize permission changes."@,
        "There is no separate `revise` capability at this time."@,
    ]
}

/// The JSON `fact capabilities` prints: every grantable capability with
/// whether the active actor holds it, the active actor (or `null`), the
/// capability names, and the notes.
pub open spec fn capabilities_json_spec(active: Option<ActiveCapabilities>) -> JsonValue {
    let held = match active {
        Some(a) => held_names(a.held@),
        None => Seq::empty(),
    };
    JsonValue::Object(
        seq![
            ("capabilities"@, JsonValue::Array(
                Seq::new(grantable_names().len(), |i: int| capability_entry_spec(i, held)),
            )),
            ("active_actor"@, match active {
                Some(a) => active_actor_spec(a),
                None => JsonValue::Null,
            }),
            ("allowed"@, texts_json(grantable_names())),
            ("notes"@, texts_json(capability_notes())),
        ],
    )
}

fn names_of(held: &Vec<HeldCapability>) -> (names: Vec<String>)
    ensures
        texts(names@) == held_names(held@),
{
    let mut names: Vec<String> = Vec::new();
    let mut i: usize = 0;
    while i < held.len()
        invariant
            i <= held@.len(),
            texts(names@) == held_names(held@).take(i as int),
        decreases held@.len() - i,
    {
        let name = held[i].name.clone();
        let ghost before = names@;
        names.push(name);
        assert(texts(names@) =~= texts(before).push(name@));
        assert(held_names(held@).take(i + 1) =~= held_names(held@).take(i as int).push(
            held@[i as int].name@,
        ));
        i = i + 1;
    }
    assert(held_names(held@).take(held@.len() as int) =~= held_names(held@));
    names
}

fn capability_entries(held: &Vec<String>) -> (j: Json)
    ensures
        j@ == JsonValue::Array(
            Seq::new(grantable_names().len(), |i: int| capability_entry_spec(i, texts(held@))),
        ),
{
    let table = grantable_capabilities();
    let mut items: Vec<Json> = Vec::new();
    let mut i: usize = 0;
    while i < table.len()
        invariant
            i <= table@.len(),
            table@.len() == grantable_names().len(),
            forall|j: int| 0 <= j < table@.len() ==> (#[trigger] table@[j]).name@ == grantable_names()[j],
            forall|j: int|
                0 <= j < table@.len() ==> (#[trigger] table@[j]).description@
                    == grantable_descriptions()[j],
            forall|j: int| 0 <= j < table@.len() ==> (#[trigger] table@[j]).privileged == (j == 8),
            items@.len() == i,
            forall|j: int|
                0 <= j < i ==> (#[trigger] items@[j])@ == capability_entry_spec(j, texts(held@)),
        decreases table@.len() - i,
    {
        let info = &table[i];
        let name = info.name.to_owned();
        let is_held = contains_text(held, &name);
        let members = vec![
            ("name".to_owned(), Json::Str(name)),
            ("description".to_owned(), Json::Str(info.description.to_owned())),
            ("privileged".to_owned(), Json::Bool(info.privileged)),
            ("held".to_owned(), Json::Bool(is_held)),
        ];
        proof {
            lemma_object_view(members);
            assert(member_views(members@) =~= seq![
                ("name"@, JsonValue::Str(grantable_names()[i as int])),
                ("description"@, JsonValue::Str(grantable_descriptions()[i as int])),
                ("privileged"@, JsonValue::Bool(i == 8)),
                ("held"@, JsonValue::Bool(texts(held@).contains(grantable_names()[i as int]))),
            ]);
        }
        items.push(Json::Object(members));
        i = i + 1;
    }
    proof {
        lemma_array_view(items);
        assert(item_views(items@) =~= Seq::new(
            grantable_names().len(),
            |i: int| capability_entry_spec(i, texts(held@)),
        ));
    }
    Json::Array(items)
}

fn grant_entries(held: &Vec<HeldCapability>) -> (j: Json)
    ensures
        j@ == JsonValue::Array(Seq::new(held@.len(), |i: int| grant_entry_spec(held@[i]))),
{
    let mut items: Vec<Json> = Vec::new();
    let mut i: usize = 0;
    while i < held.len()
        invariant
            i <= held@.len(),
            items@.len() == i,
            forall|j: int| 0 <= j < i ==> (#[trigger] items@[j])@ == grant_entry_spec(held@[j]),
        decreases held@.len() - i,
    {
        let name = Json::Str(held[i].name.clone());
        let refs = text_array(&held[i].grant_refs);
        let members = vec![("capability".to_owned(), name), ("grant_refs".to_owned(), refs)];
        proof {
            lemma_object_view(members);
            assert(member_views(members@) =~= seq![
                ("capability"@, JsonValue::Str(held@[i as int].name@)),
                ("grant_refs"@, texts_json(texts(held@[i as int].grant_refs@))),
            ]);
        }
        items.push(Json::Object(members));
        i = i + 1;
    }
    proof {
        lemma_array_view(items);
        assert(item_views(items@) =~= Seq::new(held@.len(), |i: int| grant_entry_spec(held@[i])));
    }
    Json::Array(items)
}

fn active_actor_json(a: &ActiveCapabilities) -> (j: Json)
    ensures
        j@ == active_actor_spec(*a),
{
    let names = names_of(&a.held);
    let members = vec![
        ("ledger".to_owned(), Json::Str(a.ledger_name.clone())),
        ("ledger_id".to_owned(), Json::Str(a.ledger_id.clone())),
        ("actor_id".to_owned(), Json::Str(a.actor_id.clone())),
        ("actor_ref".to_owned(), Json::Str(a.actor_ref.clone())),
        ("capabilities".to_owned(), text_array(&names)),
        ("grants".to_owned(), grant_entries(&a.held)),
    ];
    proof {
        lemma_object_view(members);
        assert(member_views(members@) =~= seq![
            ("ledger"@, JsonValue::Str(a.ledger_name@)),
            ("ledger_id"@, JsonValue::Str(a.ledger_id@)),
            ("actor_id"@, JsonValue::Str(a.actor_id@)),
            ("actor_ref"@, JsonValue::Str(a.actor_ref@)),
            ("capabilities"@, texts_json(held_names(a.held@))),
            ("grants"@, JsonValue::Array(
                Seq::new(a.held@.len(), |i: int| grant_entry_spec(a.held@[i])),
            )),
        ]);
    }
    Json::Object(members)
}

/// The JSON document `fact capabilities` prints.
pub fn capabilities_json(active: &Option<ActiveCapabilities>) -> (j: Json)
    ensures
        j@ == capabilities_json_spec(*active),
{
    let held = match active {
        Some(a) => names_of(&a.held),
        None => Vec::new(),
    };
    assert(texts(held@) == match *active {
        Some(a) => held_names(a.held@),
        None => Seq::<Seq<char>>::empty(),
    }) by {
        if active.is_none() {
            assert(texts(held@) =~= Seq::<Seq<char>>::empty());
        }
    }
    let entries = capability_entries(&held);
    let actor = match active {
        Some(a) => active_actor_json(a),
        None => Json::Null,
    };
    let allowed: Vec<String> = vec![
        "propose".to_owned(),
        "deliberate".to_owned(),
        "invite".to_owned(),
        "comment".to_owned(),
        "accept".to_owned(),
        "reject".to_owned(),
        "withdraw".to_owned(),
        "archive".to_owned(),
        "admin".to_owned(),
    ];
    let notes: Vec<String> = vec![
        "`admin` is highly privileged because it can authorize permission changes.".to_owned(),
        "There is no separate `revise` capability at this time.".to_owned(),
    ];
    assert(texts(allowed@) =~= grantable_names());
    assert(texts(notes@) =~= capability_notes());
    let members = vec![
        ("capabilities".to_owned(), entries),
        ("active_actor".to_owned(), actor),
        ("allowed".to_owned(), text_array(&allowed)),
        ("notes".to_owned(), text_array(&notes)),
    ];
    proof {
        lemma_object_view(members);
        assert(member_views(members@) =~= seq![
            ("capabilities"@, JsonValue::Array(
                Seq::new(grantable_names().len(), |i: int| capability_entry_spec(i, texts(held@))),
            )),
            ("active_actor"@, match *active {
                Some(a) => active_actor_spec(a),
                None => JsonValue::Null,
            }),
            ("allowed"@, texts_json(grantable_names())),
            ("notes"@, texts_json(capability_notes())),
        ]);
    }
    Json::Object(members)
}

} // verus!
