//! The local actor registry: identities made for actor requests, kept by
//! their registry key (the artifact stem of their alias or name).

use vstd::prelude::*;
use crate::book::{Book, BookView, opt_view};
use crate::errors::{FactError, Failure};
use crate::names::{actor_artifact_stem, artifact_stem};
use crate::text::{concat, join, join_texts, push_str, str_eq, texts};

verus! {

/// An identity of the local actor registry.
pub struct ActorRegistryEntry {
    pub name: String,
    pub alias: Option<String>,
    pub actor_type: String,
    pub ledger_id: String,
    pub actor_id: String,
    pub key_id: String,
}

/// Whether a registry entry answers to a reference: by its key (compared
/// with the reference's artifact stem), its actor ID, its name or its alias.
pub open spec fn registry_match(key: Seq<char>, e: ActorRegistryEntry, reference: Seq<char>) -> bool {
    key == artifact_stem(reference) || e.actor_id@ == reference || e.name@ == reference || opt_view(
        e.alias,
    ) == Some(reference)
}

/// The positions of the entries that answer to a reference, in key order.
pub open spec fn registry_matches(
    e: Seq<(Seq<char>, ActorRegistryEntry)>,
    reference: Seq<char>,
) -> Seq<int>
    decreases e.len(),
{
    if e.len() == 0 {
        Seq::empty()
    } else {
        registry_matches(e.drop_last(), reference) + if registry_match(
            e.last().0,
            e.last().1,
            reference,
        ) {
            seq![e.len() - 1]
        } else {
            Seq::empty()
        }
    }
}

proof fn lemma_matches_bounds(e: Seq<(Seq<char>, ActorRegistryEntry)>, reference: Seq<char>)
    ensures
        forall|k: int|
            0 <= k < registry_matches(e, reference).len() ==> 0 <= #[trigger] registry_matches(
                e,
                reference,
            )[k] < e.len(),
    decreases e.len(),
{
    if e.len() > 0 {
        lemma_matches_bounds(e.drop_last(), reference);
        let prev = registry_matches(e.drop_last(), reference);
        let all = registry_matches(e, reference);
        assert forall|k: int| 0 <= k < all.len() implies 0 <= #[trigger] all[k] < e.len() by {
            if k < prev.len() {
                assert(all[k] == prev[k]);
            } else {
                assert(all[k] == e.len() - 1);
            }
        }
    }
}

pub open spec fn not_found(reference: Seq<char>) -> Failure {
    Failure::User("local actor identity not found: "@ + reference)
}

/// The error for a reference that several identities answer to: their
/// actor IDs.
pub open spec fn several_found(reference: Seq<char>, ids: Seq<Seq<char>>) -> Failure {
    Failure::User(
        "multiple local actor identities match "@ + reference + ": "@ + join(ids, ", "@)
            + "; use --as <actor-id>"@,
    )
}

/// The position, in key order, of the only registry identity that answers
/// to a reference.
pub fn local_actor_registry_entry(registry: &Book<ActorRegistryEntry>, reference: &str) -> (r: Result<
    usize,
    FactError,
>)
    ensures
        ({
            let e = registry@.entries;
            let found = registry_matches(e, reference@);
            match r {
                Ok(i) => found.len() == 1 && found[0] == i && i < e.len(),
                Err(err) => (found.len() == 0 && err@ == not_found(reference@)) || (found.len() > 1
                    && err@ == several_found(
                    reference@,
                    found.map_values(|k: int| e[k].1.actor_id@),
                )),
            }
        }),
{
    let ghost e = registry@.entries;
    let stem = actor_artifact_stem(reference);
    let mut found: Vec<usize> = Vec::new();
    let mut ids: Vec<String> = Vec::new();
    let mut i: usize = 0;
    assert(e.take(0) =~= Seq::<(Seq<char>, ActorRegistryEntry)>::empty());
    while i < registry.len()
        invariant
            i <= e.len(),
            e == registry@.entries,
            stem@ == artifact_stem(reference@),
            found@.map_values(|k: usize| k as int) == registry_matches(e.take(i as int), reference@),
            texts(ids@) == registry_matches(e.take(i as int), reference@).map_values(
                |k: int| e[k].1.actor_id@,
            ),
        decreases e.len() - i,
    {
        let (key, entry) = registry.entry_at(i);
        assert(e.take(i + 1).drop_last() =~= e.take(i as int));
        assert(e.take(i + 1).last() == e[i as int]);
        let alias_match = match &entry.alias {
            Some(a) => str_eq(a.as_str(), reference),
            None => false,
        };
        let ghost prev = found@.map_values(|k: usize| k as int);
        let ghost prev_ids = texts(ids@);
        if str_eq(key.as_str(), stem.as_str()) || str_eq(entry.actor_id.as_str(), reference)
            || str_eq(entry.name.as_str(), reference) || alias_match {
            found.push(i);
            ids.push(entry.actor_id.clone());
            assert(found@.map_values(|k: usize| k as int) =~= prev.push(i as int));
            assert(texts(ids@) =~= prev_ids.push(e[i as int].1.actor_id@));
            assert(registry_matches(e.take(i + 1), reference@) =~= registry_matches(
                e.take(i as int),
                reference@,
            ).push(i as int));
        } else {
            assert(found@.map_values(|k: usize| k as int) =~= prev);
        }
        assert(texts(ids@) =~= registry_matches(e.take(i + 1), reference@).map_values(
            |k: int| e[k].1.actor_id@,
        ));
        i = i + 1;
    }
    assert(e.take(e.len() as int) =~= e);
    proof {
        lemma_matches_bounds(e, reference@);
    }
    if found.len() == 1 {
        assert(found@.map_values(|k: usize| k as int)[0] == found@[0] as int);
        return Ok(found[0]);
    }
    if found.len() == 0 {
        return Err(FactError::User(concat("local actor identity not found: ", reference)));
    }
    let mut m = concat("multiple local actor identities match ", reference);
    push_str(&mut m, ": ");
    push_str(&mut m, join_texts(&ids, ", ").as_str());
    push_str(&mut m, "; use --as <actor-id>");
    Err(FactError::User(m))
}

/// A registry identity reused for a new request: its name and type become
/// those asked for; its alias the one asked for, if any.
pub open spec fn refreshed(e: ActorRegistryEntry, name: Seq<char>, alias: Option<Seq<char>>, actor_type: Seq<char>) -> (
    Seq<char>,
    Option<Seq<char>>,
    Seq<char>,
) {
    (
        name,
        match alias {
            Some(a) => Some(a),
            None => opt_view(e.alias),
        },
        actor_type,
    )
}

/// Refreshes a registry identity that is reused for a new request; its IDs
/// stay.
pub fn refresh_registry_entry(
    existing: &ActorRegistryEntry,
    name: &str,
    alias: Option<&str>,
    actor_type: &str,
) -> (r: ActorRegistryEntry)
    ensures
        (r.name@, opt_view(r.alias), r.actor_type@) == refreshed(
            *existing,
            name@,
            match alias {
                Some(a) => Some(a@),
                None => None,
            },
            actor_type@,
        ),
        r.ledger_id@ == existing.ledger_id@,
        r.actor_id@ == existing.actor_id@,
        r.key_id@ == existing.key_id@,
{
    ActorRegistryEntry {
        name: name.to_owned(),
        alias: match alias {
            Some(a) => Some(a.to_owned()),
            None => match &existing.alias {
                Some(a) => Some(a.clone()),
                None => None,
            },
        },
        actor_type: actor_type.to_owned(),
        ledger_id: existing.ledger_id.clone(),
        actor_id: existing.actor_id.clone(),
        key_id: existing.key_id.clone(),
    }
}

} // verus!
