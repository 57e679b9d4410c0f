use fact_cli::book::Book;
use fact_cli::errors::FactError;
use fact_cli::fact_as::ActorProfile;
use fact_cli::json::Json;
use fact_cli::personas::{
    add_persona, list_personas, resolve_persona, set_default_persona, show_persona, PersonaEntry,
};
use fact_cli::registry::{local_actor_registry_entry, refresh_registry_entry, ActorRegistryEntry};
use fact_cli::profiles::{
    add_profile, delete_profile, list_profiles, profile_json, profile_to_apply,
    set_default_profile, show_profile, update_profile, ProfileUpdate,
};

fn profile(name: &str, alias: Option<&str>) -> ActorProfile {
    ActorProfile {
        display_name: name.to_owned(),
        alias: alias.map(str::to_owned),
        actor_type: "person".to_owned(),
        role: None,
    }
}

fn user_message(e: FactError) -> String {
    match e {
        FactError::User(m) => m,
        other => panic!("{other:?}"),
    }
}

fn names<T>(b: &Book<T>) -> Vec<String> {
    (0..b.len()).map(|i| b.entry_at(i).0.clone()).collect()
}

#[test]
fn book_keeps_names_sorted_and_unique() {
    let mut b: Book<u32> = Book::new();
    for (n, v) in [("m", 1), ("b", 2), ("z", 3), ("é", 4), ("B", 5), ("b", 6)] {
        b.insert(n.to_owned(), v);
    }
    assert_eq!(names(&b), vec!["B", "b", "m", "z", "é"]);
    assert_eq!(b.get("b"), Some(&6));
    assert_eq!(b.remove("m"), Some(1));
    assert_eq!(b.remove("m"), None);
    assert_eq!(b.get("m"), None);
    assert!(b.contains("z"));
    assert_eq!(names(&b), vec!["B", "b", "z", "é"]);
    let mut std_map = std::collections::BTreeMap::new();
    for n in ["é", "z", "B", "b"] {
        std_map.insert(n.to_owned(), ());
    }
    assert_eq!(names(&b), std_map.keys().cloned().collect::<Vec<_>>());
}

#[test]
fn profile_lifecycle() {
    let mut b = Book::new();
    assert_eq!(list_profiles(&b), "no profiles\n");
    assert_eq!(add_profile(&mut b, "work".to_owned(), profile("Ada", Some("ada")), false).unwrap(), "added profile work");
    assert_eq!(b.default_name().as_deref(), Some("work"));
    assert_eq!(add_profile(&mut b, "home".to_owned(), profile("Ada L", None), false).unwrap(), "added profile home");
    assert_eq!(b.default_name().as_deref(), Some("work"));
    assert_eq!(
        user_message(add_profile(&mut b, "home".to_owned(), profile("x", None), true).unwrap_err()),
        "profile already exists: home"
    );
    assert_eq!(list_profiles(&b), "home  Ada L\nwork  Ada  @ada  default\n");
    assert_eq!(show_profile(&b, "work").unwrap(), "work  Ada  @ada  default");
    assert_eq!(user_message(show_profile(&b, "gone").unwrap_err()), "unknown profile: gone");

    let update = ProfileUpdate {
        name: Some("Ada Lovelace".to_owned()),
        alias: Some("lovelace".to_owned()),
        clear_alias: false,
        actor_type: None,
        role: Some("admin".to_owned()),
        clear_role: false,
    };
    assert_eq!(update_profile(&mut b, "home", update).unwrap(), "updated profile home");
    let p = b.get("home").unwrap();
    assert_eq!(p.display_name, "Ada Lovelace");
    assert_eq!(p.alias.as_deref(), Some("lovelace"));
    assert_eq!(p.role.as_deref(), Some("admin"));
    assert_eq!(p.actor_type, "person");
    let clear = ProfileUpdate {
        name: None,
        alias: Some("ignored".to_owned()),
        clear_alias: true,
        actor_type: Some("bot".to_owned()),
        role: None,
        clear_role: true,
    };
    update_profile(&mut b, "home", clear).unwrap();
    let p = b.get("home").unwrap();
    assert_eq!(p.alias, None);
    assert_eq!(p.role, None);
    assert_eq!(p.actor_type, "bot");

    assert_eq!(set_default_profile(&mut b, "home").unwrap(), "default profile home");
    assert_eq!(user_message(set_default_profile(&mut b, "nope").unwrap_err()), "unknown profile: nope");
    assert_eq!(profile_to_apply(&b, None).unwrap(), "home");
    assert_eq!(profile_to_apply(&b, Some("work".to_owned())).unwrap(), "work");
    assert_eq!(
        user_message(profile_to_apply(&b, Some("x".to_owned())).unwrap_err()),
        "unknown profile: x"
    );
    assert_eq!(delete_profile(&mut b, "home").unwrap(), "deleted profile home");
    assert_eq!(b.default_name(), &None);
    assert_eq!(
        user_message(profile_to_apply(&b, None).unwrap_err()),
        "no profile named and no default profile is set"
    );
    assert_eq!(user_message(delete_profile(&mut b, "home").unwrap_err()), "unknown profile: home");
}

#[test]
fn profile_as_json() {
    match profile_json("work", &profile("Ada", None), true) {
        Json::Object(ms) => {
            let keys: Vec<&str> = ms.iter().map(|(k, _)| k.as_str()).collect();
            assert_eq!(keys, vec!["profile", "display_name", "alias", "actor_type", "role", "default"]);
            assert!(matches!(ms[2].1, Json::Null));
            assert!(matches!(ms[5].1, Json::Bool(true)));
        },
        _ => panic!("object"),
    }
}

fn persona(display: &str, alias: Option<&str>, actor: &str) -> PersonaEntry {
    PersonaEntry {
        display_name: display.to_owned(),
        alias: alias.map(str::to_owned),
        actor_type: "person".to_owned(),
        ledger_id: "l".to_owned(),
        actor_id: actor.to_owned(),
        key_id: "k".to_owned(),
        identity_bundle: None,
    }
}

#[test]
fn persona_resolution_and_listing() {
    let mut b = Book::new();
    assert_eq!(add_persona(&mut b, "work".to_owned(), persona("Ada", Some("ada"), "u-1"), false).unwrap(), "added persona work");
    add_persona(&mut b, "alt".to_owned(), persona("Bob", Some("bob"), "u-2"), false).unwrap();
    add_persona(&mut b, "side".to_owned(), persona("Cy", Some("ada"), "u-3"), true).unwrap();
    assert_eq!(
        user_message(add_persona(&mut b, "alt".to_owned(), persona("x", None, "u"), false).unwrap_err()),
        "persona already exists: alt"
    );
    let refs = vec![Some("r-2".to_owned()), None, Some("r-1".to_owned())];
    assert_eq!(names(&b), vec!["alt", "side", "work"]);
    assert_eq!(resolve_persona(&b, "work", &refs).unwrap(), 2);
    assert_eq!(resolve_persona(&b, "bob", &refs).unwrap(), 0);
    assert_eq!(resolve_persona(&b, "u-3", &refs).unwrap(), 1);
    assert_eq!(resolve_persona(&b, "r-1", &refs).unwrap(), 2);
    assert_eq!(
        user_message(resolve_persona(&b, "ada", &refs).unwrap_err()),
        "ambiguous persona reference: ada"
    );
    assert_eq!(
        user_message(resolve_persona(&b, "nobody", &refs).unwrap_err()),
        "unknown persona: nobody"
    );
    assert_eq!(
        list_personas(&b, &refs),
        "alt  r-2  Bob  @bob\nside  -  Cy  @ada  default\nwork  r-1  Ada  @ada\n"
    );
    assert_eq!(show_persona(&b, 2, "r-1"), "work  r-1  Ada  @ada");
    assert_eq!(set_default_persona(&mut b, 2), "default persona work");
    assert_eq!(show_persona(&b, 2, "r-1"), "work  r-1  Ada  @ada  default");
    assert_eq!(list_personas(&Book::new(), &vec![]), "no personas\n");
}

fn registry_entry(name: &str, alias: Option<&str>, actor: &str) -> ActorRegistryEntry {
    ActorRegistryEntry {
        name: name.to_owned(),
        alias: alias.map(str::to_owned),
        actor_type: "human".to_owned(),
        ledger_id: "l".to_owned(),
        actor_id: actor.to_owned(),
        key_id: "k".to_owned(),
    }
}

#[test]
fn local_registry_lookup() {
    let mut b = Book::new();
    b.insert("ada".to_owned(), registry_entry("Ada", Some("ada"), "u-1"));
    b.insert("bob".to_owned(), registry_entry("Bob", None, "u-2"));
    b.insert("cy".to_owned(), registry_entry("Ada", None, "u-3"));
    assert_eq!(local_actor_registry_entry(&b, "bob").unwrap(), 1);
    assert_eq!(local_actor_registry_entry(&b, "u-3").unwrap(), 2);
    assert_eq!(local_actor_registry_entry(&b, "CY").unwrap(), 2);
    assert_eq!(
        user_message(local_actor_registry_entry(&b, "Ada").unwrap_err()),
        "multiple local actor identities match Ada: u-1, u-3; use --as <actor-id>"
    );
    assert_eq!(
        user_message(local_actor_registry_entry(&b, "zed").unwrap_err()),
        "local actor identity not found: zed"
    );
    let e = refresh_registry_entry(b.get("ada").unwrap(), "Ada L", None, "bot");
    assert_eq!((e.name.as_str(), e.alias.as_deref(), e.actor_type.as_str(), e.actor_id.as_str()), ("Ada L", Some("ada"), "bot", "u-1"));
    let e = refresh_registry_entry(b.get("bob").unwrap(), "Bob", Some("b"), "human");
    assert_eq!(e.alias.as_deref(), Some("b"));
}
