//! `fact profile`: saved actor profiles, one of which may be the default.
//!
//! Each command is a change of the profile book, with the message it
//! reports; reading and writing `profiles.toml` is the caller's part.

use vstd::prelude::*;
use crate::book::{Book, BookView, has_name, lookup, opt_view};
use crate::errors::{FactError, Failure};
use crate::fact_as::ActorProfile;
use crate::json::{Json, JsonValue};
use crate::text::{concat, concat_all, lemma_concat_all_step, push_str};

verus! {

/// The default names a profile, or there is none.
pub open spec fn default_valid<T>(b: BookView<T>) -> bool {
    match b.default {
        Some(d) => has_name(b.entries, d),
        None => true,
    }
}

pub open spec fn unknown_profile(name: Seq<char>) -> Failure {
    Failure::User("unknown profile: "@ + name)
}

fn unknown_profile_error(name: &str) -> (e: FactError)
    ensures
        e@ == unknown_profile(name@),
{
    FactError::User(concat("unknown profile: ", name))
}

/// Adds an entry under a new name; it becomes the default when asked or
/// when there was none. A name already in use is refused. `noun` names the
/// kind of entry in the messages.
pub fn add_named<T>(
    book: &mut Book<T>,
    name: String,
    value: T,
    make_default: bool,
    noun: &str,
) -> (r: Result<String, FactError>)
    ensures
        default_valid(old(book)@) ==> default_valid(final(book)@),
        match r {
            Ok(m) => {
                &&& lookup(old(book)@.entries, name@) is None
                &&& forall|k: Seq<char>|
                    #[trigger] lookup(final(book)@.entries, k) == if k == name@ {
                        Some(value)
                    } else {
                        lookup(old(book)@.entries, k)
                    }
                &&& final(book)@.default == if make_default || old(book)@.default is None {
                    Some(name@)
                } else {
                    old(book)@.default
                }
                &&& m@ == "added "@ + noun@ + " "@ + name@
            },
            Err(e) => {
                &&& lookup(old(book)@.entries, name@) is Some
                &&& e@ == Failure::User(noun@ + " already exists: "@ + name@)
                &&& final(book)@ == old(book)@
            },
        },
{
    if book.contains(name.as_str()) {
        let mut e = noun.to_owned();
        push_str(&mut e, " already exists: ");
        push_str(&mut e, name.as_str());
        return Err(FactError::User(e));
    }
    let mut message = concat("added ", noun);
    push_str(&mut message, " ");
    push_str(&mut message, name.as_str());
    let ghost before = book@;
    let ghost n = name@;
    let becomes_default = make_default || book.default_name().is_none();
    let default_name = if becomes_default {
        Some(name.clone())
    } else {
        None
    };
    book.insert(name, value);
    if becomes_default {
        book.set_default(default_name);
    }
    proof {
        if becomes_default {
            assert(lookup(book@.entries, n) is Some);
        } else if default_valid(before) && before.default is Some {
            let d = before.default->Some_0;
            assert(lookup(before.entries, d) is Some);
            assert(lookup(book@.entries, d) is Some);
        }
    }
    Ok(message)
}

/// Adds a profile.
pub fn add_profile(
    book: &mut Book<ActorProfile>,
    name: String,
    profile: ActorProfile,
    make_default: bool,
) -> (r: Result<String, FactError>)
    ensures
        default_valid(old(book)@) ==> default_valid(final(book)@),
        match r {
            Ok(m) => {
                &&& lookup(old(book)@.entries, name@) is None
                &&& forall|k: Seq<char>|
                    #[trigger] lookup(final(book)@.entries, k) == if k == name@ {
                        Some(profile)
                    } else {
                        lookup(old(book)@.entries, k)
                    }
                &&& final(book)@.default == if make_default || old(book)@.default is None {
                    Some(name@)
                } else {
                    old(book)@.default
                }
                &&& m@ == "added profile "@ + name@
            },
            Err(e) => {
                &&& lookup(old(book)@.entries, name@) is Some
                &&& e@ == Failure::User("profile already exists: "@ + name@)
                &&& final(book)@ == old(book)@
            },
        },
{
    let r = add_named(book, name, profile, make_default, "profile");
    proof {
        reveal_strlit("profile");
        reveal_strlit("added ");
        reveal_strlit("added profile ");
        reveal_strlit(" ");
        reveal_strlit(" already exists: ");
        reveal_strlit("profile already exists: ");
        assert("added "@ + "profile"@ + " "@ =~= "added profile "@);
        assert("profile"@ + " already exists: "@ =~= "profile already exists: "@);
        if r is Ok {
            assert(r->Ok_0@ =~= "added profile "@ + name@);
        } else {
            assert(r->Err_0@ == Failure::User("profile already exists: "@ + name@));
        }
    }
    r
}

/// What a profile's line shows: its name, display name, alias and whether
/// it is the default.
pub open spec fn profile_line(name: Seq<char>, p: ActorProfile, is_default: bool) -> Seq<char> {
    name + "  "@ + p.display_name@ + match p.alias {
        Some(a) => "  @"@ + a@,
        None => Seq::empty(),
    } + if is_default {
        "  default"@
    } else {
        Seq::empty()
    }
}

fn profile_line_text(name: &str, p: &ActorProfile, is_default: bool) -> (s: String)
    ensures
        s@ == profile_line(name@, *p, is_default),
{
    let mut s = concat(name, "  ");
    push_str(&mut s, p.display_name.as_str());
    match &p.alias {
        Some(a) => {
            push_str(&mut s, "  @");
            push_str(&mut s, a.as_str());
        },
        None => {},
    }
    if is_default {
        push_str(&mut s, "  default");
    }
    assert(s@ =~= profile_line(name@, *p, is_default));
    s
}

/// What `fact profile list` prints: a line a profile in name order, or
/// `no profiles`.
pub open spec fn profile_list_text(b: BookView<ActorProfile>) -> Seq<char> {
    if b.entries.len() == 0 {
        "no profiles\n"@
    } else {
        concat_all(
            b.entries.map_values(
                |e: (Seq<char>, ActorProfile)|
                    profile_line(e.0, e.1, b.default == Some(e.0)) + "\n"@,
            ),
        )
    }
}

/// Lists the profiles.
pub fn list_profiles(book: &Book<ActorProfile>) -> (s: String)
    ensures
        s@ == profile_list_text(book@),
{
    if book.len() == 0 {
        return "no profiles\n".to_owned();
    }
    let ghost parts = book@.entries.map_values(
        |e: (Seq<char>, ActorProfile)| profile_line(e.0, e.1, book@.default == Some(e.0)) + "\n"@,
    );
    let mut s = String::new();
    let mut i: usize = 0;
    assert(parts.take(0) =~= Seq::<Seq<char>>::empty());
    while i < book.len()
        invariant
            i <= book@.entries.len(),
            parts == book@.entries.map_values(
                |e: (Seq<char>, ActorProfile)|
                    profile_line(e.0, e.1, book@.default == Some(e.0)) + "\n"@,
            ),
            s@ == concat_all(parts.take(i as int)),
        decreases book@.entries.len() - i,
    {
        proof {
            lemma_concat_all_step(parts, i as int);
        }
        let (name, p) = book.entry_at(i);
        let is_default = book.is_default(name.as_str());
        push_str(&mut s, profile_line_text(name.as_str(), p, is_default).as_str());
        push_str(&mut s, "\n");
        i = i + 1;
    }
    assert(parts.take(book@.entries.len() as int) =~= parts);
    s
}

/// Shows one profile.
pub fn show_profile(book: &Book<ActorProfile>, name: &str) -> (r: Result<String, FactError>)
    ensures
        match r {
            Ok(s) => lookup(book@.entries, name@) matches Some(p) && s@ == profile_line(
                name@,
                p,
                book@.default == Some(name@),
            ),
            Err(e) => lookup(book@.entries, name@) is None && e@ == unknown_profile(name@),
        },
{
    match book.get(name) {
        Some(p) => Ok(profile_line_text(name, p, book.is_default(name))),
        None => Err(unknown_profile_error(name)),
    }
}

/// The changes `fact profile update` asks for.
pub struct ProfileUpdate {
    pub name: Option<String>,
    pub alias: Option<String>,
    pub clear_alias: bool,
    pub actor_type: Option<String>,
    pub role: Option<String>,
    pub clear_role: bool,
}

/// A profile after an update: each field given replaces the old one;
/// clearing wins over a new alias or role.
pub open spec fn updated(p: ActorProfile, u: ProfileUpdate) -> ActorProfile {
    ActorProfile {
        display_name: match u.name {
            Some(n) => n,
            None => p.display_name,
        },
        alias: if u.clear_alias {
            None
        } else if u.alias is Some {
            u.alias
        } else {
            p.alias
        },
        actor_type: match u.actor_type {
            Some(t) => t,
            None => p.actor_type,
        },
        role: if u.clear_role {
            None
        } else if u.role is Some {
            u.role
        } else {
            p.role
        },
    }
}

/// Updates a profile.
pub fn update_profile(book: &mut Book<ActorProfile>, name: &str, update: ProfileUpdate) -> (r: Result<
    String,
    FactError,
>)
    ensures
        default_valid(old(book)@) ==> default_valid(final(book)@),
        final(book)@.default == old(book)@.default,
        match r {
            Ok(m) => {
                &&& lookup(old(book)@.entries, name@) matches Some(p)
                &&& forall|k: Seq<char>|
                    #[trigger] lookup(final(book)@.entries, k) == if k == name@ {
                        Some(updated(p, update))
                    } else {
                        lookup(old(book)@.entries, k)
                    }
                &&& m@ == "updated profile "@ + name@
            },
            Err(e) => {
                &&& lookup(old(book)@.entries, name@) is None
                &&& e@ == unknown_profile(name@)
                &&& final(book)@ == old(book)@
            },
        },
{
    let ghost before = book@;
    let p = match book.remove(name) {
        Some(p) => p,
        None => {
            return Err(unknown_profile_error(name));
        },
    };
    let ghost after_remove = book@;
    let ghost old_p = p;
    let ActorProfile { display_name, alias, actor_type, role } = p;
    let new_profile = ActorProfile {
        display_name: match update.name {
            Some(n) => n,
            None => display_name,
        },
        alias: if update.clear_alias {
            None
        } else if update.alias.is_some() {
            update.alias
        } else {
            alias
        },
        actor_type: match update.actor_type {
            Some(t) => t,
            None => actor_type,
        },
        role: if update.clear_role {
            None
        } else if update.role.is_some() {
            update.role
        } else {
            role
        },
    };
    assert(new_profile == updated(old_p, update));
    book.insert(name.to_owned(), new_profile);
    proof {
        if default_valid(before) && before.default is Some {
            let d = before.default->Some_0;
            assert(lookup(before.entries, d) is Some);
            assert(lookup(book@.entries, d) is Some);
        }
    }
    Ok(concat("updated profile ", name))
}

/// Deletes a profile; the default is cleared when it named it.
pub fn delete_profile(book: &mut Book<ActorProfile>, name: &str) -> (r: Result<String, FactError>)
    ensures
        default_valid(old(book)@) ==> default_valid(final(book)@),
        match r {
            Ok(m) => {
                &&& lookup(old(book)@.entries, name@) is Some
                &&& forall|k: Seq<char>|
                    #[trigger] lookup(final(book)@.entries, k) == if k == name@ {
                        None
                    } else {
                        lookup(old(book)@.entries, k)
                    }
                &&& final(book)@.default == if old(book)@.default == Some(name@) {
                    None
                } else {
                    old(book)@.default
                }
                &&& m@ == "deleted profile "@ + name@
            },
            Err(e) => {
                &&& lookup(old(book)@.entries, name@) is None
                &&& e@ == unknown_profile(name@)
                &&& final(book)@ == old(book)@
            },
        },
{
    let ghost before = book@;
    match book.remove(name) {
        Some(_) => {},
        None => {
            return Err(unknown_profile_error(name));
        },
    }
    if book.is_default(name) {
        book.set_default(None);
    }
    proof {
        if default_valid(before) && book@.default is Some {
            let d = before.default->Some_0;
            assert(d != name@);
            assert(lookup(before.entries, d) is Some);
            assert(lookup(book@.entries, d) is Some);
        }
    }
    Ok(concat("deleted profile ", name))
}

/// Makes a profile the default.
pub fn set_default_profile(book: &mut Book<ActorProfile>, name: &str) -> (r: Result<
    String,
    FactError,
>)
    ensures
        default_valid(old(book)@) ==> default_valid(final(book)@),
        final(book)@.entries == old(book)@.entries,
        match r {
            Ok(m) => lookup(old(book)@.entries, name@) is Some && final(book)@.default == Some(name@)
                && m@ == "default profile "@ + name@,
            Err(e) => lookup(old(book)@.entries, name@) is None && e@ == unknown_profile(name@)
                && final(book)@ == old(book)@,
        },
{
    if !book.contains(name) {
        return Err(unknown_profile_error(name));
    }
    book.set_default(Some(name.to_owned()));
    Ok(concat("default profile ", name))
}

pub open spec fn no_profile_error() -> Failure {
    Failure::User("no profile named and no default profile is set"@)
}

/// The profile `fact profile apply` applies: the one named, else the
/// default.
pub fn profile_to_apply(book: &Book<ActorProfile>, requested: Option<String>) -> (r: Result<
    String,
    FactError,
>)
    ensures
        match r {
            Ok(n) => (match requested {
                Some(q) => n@ == q@,
                None => book@.default == Some(n@),
            }) && lookup(book@.entries, n@) is Some,
            Err(e) => match requested {
                Some(q) => lookup(book@.entries, q@) is None && e@ == unknown_profile(q@),
                None => match book@.default {
                    Some(d) => lookup(book@.entries, d) is None && e@ == unknown_profile(d),
                    None => e@ == no_profile_error(),
                },
            },
        },
{
    let name = match requested {
        Some(q) => q,
        None => match book.default_name() {
            Some(d) => d.clone(),
            None => {
                return Err(FactError::User("no profile named and no default profile is set".to_owned()));
            },
        },
    };
    if !book.contains(name.as_str()) {
        return Err(unknown_profile_error(name.as_str()));
    }
    Ok(name)
}

/// A profile as JSON, with whether it is the default.
pub open spec fn profile_json_value(name: Seq<char>, p: ActorProfile, is_default: bool) -> JsonValue {
    JsonValue::Object(
        seq![
            ("profile"@, JsonValue::Str(name)),
            ("display_name"@, JsonValue::Str(p.display_name@)),
            ("alias"@, match p.alias {
                Some(a) => JsonValue::Str(a@),
                None => JsonValue::Null,
            }),
            ("actor_type"@, JsonValue::Str(p.actor_type@)),
            ("role"@, match p.role {
                Some(r) => JsonValue::Str(r@),
                None => JsonValue::Null,
            }),
            ("default"@, JsonValue::Bool(is_default)),
        ],
    )
}

fn opt_json(o: &Option<String>) -> (j: Json)
    ensures
        j@ == match *o {
            Some(s) => JsonValue::Str(s@),
            None => JsonValue::Null,
        },
{
    match o {
        Some(s) => Json::Str(s.clone()),
        None => Json::Null,
    }
}

/// A profile as the JSON that `fact profile` prints.
pub fn profile_json(name: &str, p: &ActorProfile, is_default: bool) -> (j: Json)
    ensures
        j@ == profile_json_value(name@, *p, is_default),
{
    let profile = Json::Str(name.to_owned());
    let display_name = Json::Str(p.display_name.clone());
    let actor_type = Json::Str(p.actor_type.clone());
    let default = Json::Bool(is_default);
    assert(profile@ == JsonValue::Str(name@));
    assert(display_name@ == JsonValue::Str(p.display_name@));
    assert(actor_type@ == JsonValue::Str(p.actor_type@));
    assert(default@ == JsonValue::Bool(is_default));
    let members = vec![
        ("profile".to_owned(), profile),
        ("display_name".to_owned(), display_name),
        ("alias".to_owned(), opt_json(&p.alias)),
        ("actor_type".to_owned(), actor_type),
        ("role".to_owned(), opt_json(&p.role)),
        ("default".to_owned(), default),
    ];
    let j = Json::Object(members);
    proof {
        let inner = match j@ {
            JsonValue::Object(s) => s,
            _ => Seq::empty(),
        };
        let expected = match profile_json_value(name@, *p, is_default) {
            JsonValue::Object(s) => s,
            _ => Seq::empty(),
        };
        assert(inner =~= expected);
    }
    j
}

} // verus!
