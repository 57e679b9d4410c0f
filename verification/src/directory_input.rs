//! What is written into a ledger's directory for an actor: for the first
//! admin of a new ledger (from the default profile, else the actor's
//! persona, else plain defaults), and when an actor is given a name.

use vstd::prelude::*;
use crate::book::opt_view;
use crate::fact_as::ActorProfile;
use crate::personas::PersonaEntry;
use crate::text::concat;

verus! {

/// The directory fields of an actor entry.
pub struct DirectoryMetadata {
    pub display_name: String,
    pub alias: Option<String>,
    pub actor_type: Option<String>,
    pub role: Option<String>,
    /// Where the entry's metadata came from.
    pub source: String,
}

/// The fields of a directory entry as plain values.
pub struct MetadataView {
    pub display_name: Seq<char>,
    pub alias: Option<Seq<char>>,
    pub actor_type: Option<Seq<char>>,
    pub role: Option<Seq<char>>,
    pub source: Seq<char>,
}

impl View for DirectoryMetadata {
    type V = MetadataView;

    open spec fn view(&self) -> MetadataView {
        MetadataView {
            display_name: self.display_name@,
            alias: opt_view(self.alias),
            actor_type: opt_view(self.actor_type),
            role: opt_view(self.role),
            source: self.source@,
        }
    }
}

/// The directory entry of a new ledger's first admin.
pub open spec fn initial_admin_spec(
    profile: Option<(Seq<char>, ActorProfile)>,
    persona: Option<(Seq<char>, PersonaEntry)>,
) -> MetadataView {
    match profile {
        Some((name, p)) => MetadataView {
            display_name: p.display_name@,
            alias: opt_view(p.alias),
            actor_type: Some(p.actor_type@),
            role: match p.role {
                Some(r) => Some(r@),
                None => Some("admin"@),
            },
            source: "profile:"@ + name,
        },
        None => match persona {
            Some((name, p)) => MetadataView {
                display_name: p.display_name@,
                alias: opt_view(p.alias),
                actor_type: Some(p.actor_type@),
                role: Some("admin"@),
                source: "persona:"@ + name,
            },
            None => MetadataView {
                display_name: "Ledger Admin"@,
                alias: None,
                actor_type: Some("human"@),
                role: Some("admin"@),
                source: "fact init"@,
            },
        },
    }
}

pub open spec fn named_view<T>(o: Option<(&str, T)>) -> Option<(Seq<char>, T)> {
    match o {
        Some((n, t)) => Some((n@, t)),
        None => None,
    }
}

/// The directory entry of a new ledger's first admin: described by the
/// default profile when there is one, else by the persona of the admin's
/// actor, else as "Ledger Admin".
pub fn initial_admin_metadata(
    profile: Option<(&str, ActorProfile)>,
    persona: Option<(&str, PersonaEntry)>,
) -> (m: DirectoryMetadata)
    ensures
        m@ == initial_admin_spec(named_view(profile), named_view(persona)),
{
    match profile {
        Some((name, p)) => DirectoryMetadata {
            display_name: p.display_name,
            alias: p.alias,
            actor_type: Some(p.actor_type),
            role: match p.role {
                Some(r) => Some(r),
                None => Some("admin".to_owned()),
            },
            source: concat("profile:", name),
        },
        None => match persona {
            Some((name, p)) => DirectoryMetadata {
                display_name: p.display_name,
                alias: p.alias,
                actor_type: Some(p.actor_type),
                role: Some("admin".to_owned()),
                source: concat("persona:", name),
            },
            None => DirectoryMetadata {
                display_name: "Ledger Admin".to_owned(),
                alias: None,
                actor_type: Some("human".to_owned()),
                role: Some("admin".to_owned()),
                source: "fact init".to_owned(),
            },
        },
    }
}

/// An actor's current directory entry, as far as naming it keeps it.
pub struct CurrentEntry {
    pub alias: Option<String>,
    pub actor_type: Option<String>,
    pub role: Option<String>,
    pub key_id: Option<u128>,
}

/// The first of two options that is present.
pub open spec fn or_current(given: Option<Seq<char>>, current: Option<Option<Seq<char>>>) -> Option<
    Seq<char>,
> {
    match given {
        Some(g) => Some(g),
        None => match current {
            Some(c) => c,
            None => None,
        },
    }
}

fn or_else_current(given: Option<String>, current: Option<&Option<String>>) -> (r: Option<String>)
    ensures
        opt_view(r) == or_current(
            opt_view(given),
            match current {
                Some(c) => Some(opt_view(*c)),
                None => None,
            },
        ),
{
    match given {
        Some(g) => Some(g),
        None => match current {
            Some(c) => match c {
                Some(v) => Some(v.clone()),
                None => None,
            },
            None => None,
        },
    }
}

/// The entry `fact actor name` writes: the given name, and each other field
/// as given, else as the current entry has it. The key is the current
/// entry's, else `bound_key`, the key that a binding gives the actor.
pub fn named_actor_metadata(
    display_name: String,
    alias: Option<String>,
    actor_type: Option<String>,
    role: Option<String>,
    current: &Option<CurrentEntry>,
    bound_key: Option<u128>,
) -> (r: (DirectoryMetadata, Option<u128>))
    ensures
        r.0@ == (MetadataView {
            display_name: display_name@,
            alias: or_current(
                opt_view(alias),
                match current {
                    Some(c) => Some(opt_view(c.alias)),
                    None => None,
                },
            ),
            actor_type: or_current(
                opt_view(actor_type),
                match current {
                    Some(c) => Some(opt_view(c.actor_type)),
                    None => None,
                },
            ),
            role: or_current(
                opt_view(role),
                match current {
                    Some(c) => Some(opt_view(c.role)),
                    None => None,
                },
            ),
            source: "actor-name"@,
        }),
        r.1 == match current {
            Some(c) => match c.key_id {
                Some(k) => Some(k),
                None => bound_key,
            },
            None => bound_key,
        },
{
    let (alias_now, type_now, role_now, key_now) = match current {
        Some(c) => (Some(&c.alias), Some(&c.actor_type), Some(&c.role), c.key_id),
        None => (None, None, None, None),
    };
    let key = match key_now {
        Some(k) => Some(k),
        None => bound_key,
    };
    let m = DirectoryMetadata {
        display_name,
        alias: or_else_current(alias, alias_now),
        actor_type: or_else_current(actor_type, type_now),
        role: or_else_current(role, role_now),
        source: "actor-name".to_owned(),
    };
    (m, key)
}

} // verus!
