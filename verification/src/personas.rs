//! `fact persona`: local personas, each an actor identity kept for use
//! across ledgers, one of which may be the default.
//!
//! A persona is found by its name, or else by its alias, its actor ID or the
//! short reference of that ID. Short references are made by the caller and
//! handed over, one for each persona in name order (`None` when its actor ID
//! is not a UUID).

use vstd::prelude::*;
use crate::book::{Book, BookView, has_name, lookup, opt_view};
use crate::errors::{FactError, Failure};
use crate::profiles::{add_named, default_valid};
use crate::text::{concat, concat_all, lemma_concat_all_step, push_str, str_eq};

verus! {

/// A persona as `personas.toml` keeps it.
pub struct PersonaEntry {
    pub display_name: String,
    pub alias: Option<String>,
    pub actor_type: String,
    pub ledger_id: String,
    pub actor_id: String,
    pub key_id: String,
    pub identity_bundle: Option<String>,
}

/// Adds a persona.
pub fn add_persona(
    book: &mut Book<PersonaEntry>,
    name: String,
    persona: PersonaEntry,
    make_default: bool,
) -> (r: Result<String, FactError>)
    ensures
        default_valid(old(book)@) ==> default_valid(final(book)@),
        match r {
            Ok(m) => {
                &&& lookup(old(book)@.entries, name@) is None
                &&& forall|k: Seq<char>|
                    #[trigger] lookup(final(book)@.entries, k) == if k == name@ {
                        Some(persona)
                    } else {
                        lookup(old(book)@.entries, k)
                    }
                &&& final(book)@.default == if make_default || old(book)@.default is None {
                    Some(name@)
                } else {
                    old(book)@.default
                }
                &&& m@ == "added persona "@ + name@
            },
            Err(e) => {
                &&& lookup(old(book)@.entries, name@) is Some
                &&& e@ == Failure::User("persona already exists: "@ + name@)
                &&& final(book)@ == old(book)@
            },
        },
{
    let r = add_named(book, name, persona, make_default, "persona");
    proof {
        reveal_strlit("persona");
        reveal_strlit("added ");
        reveal_strlit("added persona ");
        reveal_strlit(" ");
        reveal_strlit(" already exists: ");
        reveal_strlit("persona already exists: ");
        assert("added "@ + "persona"@ + " "@ =~= "added persona "@);
        assert("persona"@ + " already exists: "@ =~= "persona already exists: "@);
        if r is Ok {
            assert(r->Ok_0@ =~= "added persona "@ + name@);
        } else {
            assert(r->Err_0@ == Failure::User("persona already exists: "@ + name@));
        }
    }
    r
}

/// Whether a persona answers to a reference other than its name.
pub open spec fn answers_to(p: PersonaEntry, actor_ref: Option<Seq<char>>, reference: Seq<char>) -> bool {
    opt_view(p.alias) == Some(reference) || p.actor_id@ == reference || actor_ref == Some(reference)
}

/// The positions of the personas that answer to a reference, in name order.
pub open spec fn answering(
    e: Seq<(Seq<char>, PersonaEntry)>,
    refs: Seq<Option<Seq<char>>>,
    reference: Seq<char>,
) -> Seq<int>
    decreases e.len(),
{
    if e.len() == 0 {
        Seq::empty()
    } else {
        answering(e.drop_last(), refs, reference) + if answers_to(
            e.last().1,
            refs[e.len() - 1],
            reference,
        ) {
            seq![e.len() - 1]
        } else {
            Seq::empty()
        }
    }
}

pub open spec fn unknown_persona(reference: Seq<char>) -> Failure {
    Failure::User("unknown persona: "@ + reference)
}

pub open spec fn ambiguous_persona(reference: Seq<char>) -> Failure {
    Failure::User("ambiguous persona reference: "@ + reference)
}

proof fn lemma_answering_bounds(
    e: Seq<(Seq<char>, PersonaEntry)>,
    refs: Seq<Option<Seq<char>>>,
    reference: Seq<char>,
)
    ensures
        forall|k: int|
            0 <= k < answering(e, refs, reference).len() ==> 0 <= #[trigger] answering(
                e,
                refs,
                reference,
            )[k] < e.len(),
    decreases e.len(),
{
    if e.len() > 0 {
        lemma_answering_bounds(e.drop_last(), refs, reference);
        let prev = answering(e.drop_last(), refs, reference);
        let all = answering(e, refs, reference);
        assert forall|k: int| 0 <= k < all.len() implies 0 <= #[trigger] all[k] < e.len() by {
            if k < prev.len() {
                assert(all[k] == prev[k]);
            } else {
                assert(all[k] == e.len() - 1);
            }
        }
    }
}

/// The position, in name order, of the persona a reference names: the one
/// of that name; else the only one answering to it by alias, actor ID or
/// short reference.
pub fn resolve_persona(
    book: &Book<PersonaEntry>,
    reference: &str,
    actor_refs: &Vec<Option<String>>,
) -> (r: Result<usize, FactError>)
    requires
        actor_refs@.len() == book@.entries.len(),
    ensures
        ({
            let e = book@.entries;
            let refs = actor_refs@.map_values(|o: Option<String>| opt_view(o));
            let found = answering(e, refs, reference@);
            match r {
                Ok(i) => i < e.len() && if has_name(e, reference@) {
                    e[i as int].0 == reference@
                } else {
                    found.len() == 1 && found[0] == i
                },
                Err(err) => !has_name(e, reference@) && ((found.len() == 0 && err@ == unknown_persona(
                    reference@,
                )) || (found.len() > 1 && err@ == ambiguous_persona(reference@))),
            }
        }),
{
    let ghost e = book@.entries;
    let ghost refs = actor_refs@.map_values(|o: Option<String>| opt_view(o));
    let mut i: usize = 0;
    let mut found: Vec<usize> = Vec::new();
    let mut by_name: Option<usize> = None;
    assert(e.take(0) =~= Seq::<(Seq<char>, PersonaEntry)>::empty());
    while i < book.len()
        invariant
            i <= e.len(),
            e == book@.entries,
            refs == actor_refs@.map_values(|o: Option<String>| opt_view(o)),
            actor_refs@.len() == e.len(),
            found@.map_values(|k: usize| k as int) == answering(e.take(i as int), refs, reference@),
            match by_name {
                Some(k) => k < e.len() && e[k as int].0 == reference@,
                None => forall|j: int| 0 <= j < i ==> (#[trigger] e[j]).0 != reference@,
            },
        decreases e.len() - i,
    {
        let (name, p) = book.entry_at(i);
        assert(e.take(i + 1).drop_last() =~= e.take(i as int));
        assert(e.take(i + 1).last() == e[i as int]);
        if str_eq(name.as_str(), reference) {
            by_name = Some(i);
        }
        let alias_match = match &p.alias {
            Some(a) => str_eq(a.as_str(), reference),
            None => false,
        };
        let ref_match = match &actor_refs[i] {
            Some(q) => str_eq(q.as_str(), reference),
            None => false,
        };
        let ghost prev = found@.map_values(|k: usize| k as int);
        if alias_match || str_eq(p.actor_id.as_str(), reference) || ref_match {
            found.push(i);
            assert(found@.map_values(|k: usize| k as int) =~= prev.push(i as int));
        } else {
            assert(found@.map_values(|k: usize| k as int) =~= prev);
        }
        assert(refs[i as int] == opt_view(actor_refs@[i as int]));
        i = i + 1;
    }
    assert(e.take(e.len() as int) =~= e);
    match by_name {
        Some(k) => {
            return Ok(k);
        },
        None => {},
    }
    assert(!has_name(e, reference@));
    if found.len() == 1 {
        assert(found@.map_values(|k: usize| k as int)[0] == found@[0] as int);
        proof {
            lemma_answering_bounds(e, refs, reference@);
        }
        return Ok(found[0]);
    }
    if found.len() == 0 {
        return Err(FactError::User(concat("unknown persona: ", reference)));
    }
    Err(FactError::User(concat("ambiguous persona reference: ", reference)))
}

/// A persona's line: its name, short reference, display name, alias and
/// whether it is the default.
pub open spec fn persona_line(
    name: Seq<char>,
    p: PersonaEntry,
    actor_ref: Seq<char>,
    is_default: bool,
) -> Seq<char> {
    name + "  "@ + actor_ref + "  "@ + p.display_name@ + match p.alias {
        Some(a) => "  @"@ + a@,
        None => Seq::empty(),
    } + if is_default {
        "  default"@
    } else {
        Seq::empty()
    }
}

fn persona_line_text(name: &str, p: &PersonaEntry, actor_ref: &str, is_default: bool) -> (s: String)
    ensures
        s@ == persona_line(name@, *p, actor_ref@, is_default),
{
    let mut s = concat(name, "  ");
    push_str(&mut s, actor_ref);
    push_str(&mut s, "  ");
    push_str(&mut s, p.display_name.as_str());
    match &p.alias {
        Some(a) => {
            push_str(&mut s, "  @");
            push_str(&mut s, a.as_str());
        },
        None => {},
    }
    if is_default {
        push_str(&mut s, "  default");
    }
    assert(s@ =~= persona_line(name@, *p, actor_ref@, is_default));
    s
}

/// What `fact persona list` prints: a line a persona in name order (`-` for
/// a persona without a short reference), or `no personas`.
pub open spec fn persona_list_text(b: BookView<PersonaEntry>, refs: Seq<Option<Seq<char>>>) -> Seq<
    char,
> {
    if b.entries.len() == 0 {
        "no personas\n"@
    } else {
        concat_all(
            Seq::new(
                b.entries.len(),
                |i: int|
                    persona_line(
                        b.entries[i].0,
                        b.entries[i].1,
                        match refs[i] {
                            Some(r) => r,
                            None => "-"@,
                        },
                        b.default == Some(b.entries[i].0),
                    ) + "\n"@,
            ),
        )
    }
}

/// Lists the personas.
pub fn list_personas(book: &Book<PersonaEntry>, actor_refs: &Vec<Option<String>>) -> (s: String)
    requires
        actor_refs@.len() == book@.entries.len(),
    ensures
        s@ == persona_list_text(book@, actor_refs@.map_values(|o: Option<String>| opt_view(o))),
{
    if book.len() == 0 {
        return "no personas\n".to_owned();
    }
    let ghost refs = actor_refs@.map_values(|o: Option<String>| opt_view(o));
    let ghost parts = Seq::new(
        book@.entries.len(),
        |i: int|
            persona_line(
                book@.entries[i].0,
                book@.entries[i].1,
                match refs[i] {
                    Some(r) => r,
                    None => "-"@,
                },
                book@.default == Some(book@.entries[i].0),
            ) + "\n"@,
    );
    let mut s = String::new();
    let mut i: usize = 0;
    assert(parts.take(0) =~= Seq::<Seq<char>>::empty());
    while i < book.len()
        invariant
            i <= book@.entries.len(),
            actor_refs@.len() == book@.entries.len(),
            refs == actor_refs@.map_values(|o: Option<String>| opt_view(o)),
            parts == Seq::new(
                book@.entries.len(),
                |i: int|
                    persona_line(
                        book@.entries[i].0,
                        book@.entries[i].1,
                        match refs[i] {
                            Some(r) => r,
                            None => "-"@,
                        },
                        book@.default == Some(book@.entries[i].0),
                    ) + "\n"@,
            ),
            s@ == concat_all(parts.take(i as int)),
        decreases book@.entries.len() - i,
    {
        proof {
            lemma_concat_all_step(parts, i as int);
        }
        let (name, p) = book.entry_at(i);
        let is_default = book.is_default(name.as_str());
        let shown_ref = match &actor_refs[i] {
            Some(r) => r.as_str(),
            None => "-",
        };
        assert(refs[i as int] == opt_view(actor_refs@[i as int]));
        push_str(&mut s, persona_line_text(name.as_str(), p, shown_ref, is_default).as_str());
        push_str(&mut s, "\n");
        assert(s@ =~= concat_all(parts.take(i as int)) + parts[i as int]);
        i = i + 1;
    }
    assert(parts.take(book@.entries.len() as int) =~= parts);
    s
}

/// Shows the persona at a position, with its short reference.
pub fn show_persona(book: &Book<PersonaEntry>, i: usize, actor_ref: &str) -> (s: String)
    requires
        i < book@.entries.len(),
    ensures
        s@ == persona_line(
            book@.entries[i as int].0,
            book@.entries[i as int].1,
            actor_ref@,
            book@.default == Some(book@.entries[i as int].0),
        ),
{
    let (name, p) = book.entry_at(i);
    persona_line_text(name.as_str(), p, actor_ref, book.is_default(name.as_str()))
}

/// Makes the persona at a position the default.
pub fn set_default_persona(book: &mut Book<PersonaEntry>, i: usize) -> (m: String)
    requires
        i < old(book)@.entries.len(),
    ensures
        final(book)@.entries == old(book)@.entries,
        final(book)@.default == Some(old(book)@.entries[i as int].0),
        default_valid(final(book)@),
        m@ == "default persona "@ + old(book)@.entries[i as int].0,
{
    let name = book.entry_at(i).0.clone();
    let m = concat("default persona ", name.as_str());
    book.set_default(Some(name));
    proof {
        assert(book@.entries[i as int].0 == book@.entries[i as int].0);
    }
    m
}

} // verus!
