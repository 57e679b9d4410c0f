use fact_cli::errors::FactError;
use fact_cli::names::{
    actor_artifact_stem, actor_registry_key, actor_request_default_file,
    actor_response_default_file, path_slug, portable_name, portable_name_from_text,
    same_remote_url, trim_char,
};

#[test]
fn artifact_stems_are_lowercase_and_collapse_other_bytes() {
    assert_eq!(actor_artifact_stem("Al Newkirk"), "al-newkirk");
    assert_eq!(actor_artifact_stem("  --Ada__Lovelace!!  "), "ada__lovelace");
    assert_eq!(actor_artifact_stem("a--b"), "a--b");
    assert_eq!(actor_artifact_stem("Zoë Åberg"), "zo-berg");
    assert_eq!(actor_artifact_stem("!!!"), "");
    let stem = actor_artifact_stem("Mixed Case 42");
    assert_eq!(actor_artifact_stem(&stem), stem);
}

#[test]
fn portable_names_are_short_ascii_words() {
    assert!(portable_name("alnewkirk"));
    assert!(portable_name("team_a-1"));
    assert!(!portable_name(""));
    assert!(!portable_name("has space"));
    assert!(!portable_name("é"));
    assert!(portable_name(&"a".repeat(64)));
    assert!(!portable_name(&"a".repeat(65)));
}

#[test]
fn registry_keys_come_from_the_alias_or_name() {
    assert_eq!(actor_registry_key("Al Newkirk", None).unwrap(), "al-newkirk");
    assert_eq!(actor_registry_key("Al Newkirk", Some("AL")).unwrap(), "al");
    match actor_registry_key("Al", Some("???")) {
        Err(FactError::User(message)) => assert_eq!(message, "invalid actor name: ???"),
        _ => panic!("expected an invalid actor name"),
    }
}

#[test]
fn default_artifact_files_use_the_stem() {
    assert_eq!(actor_request_default_file("Al Newkirk", None), "al-newkirk.actor.json");
    assert_eq!(actor_request_default_file("Al", Some("ally")), "ally.actor.json");
    assert_eq!(actor_response_default_file(None, "Ledger Team"), "ledger-team.connection.json");
    assert_eq!(actor_response_default_file(Some("ops"), "x"), "ops.connection.json");
}

#[test]
fn free_text_becomes_a_portable_name() {
    assert_eq!(portable_name_from_text("My Ledger!"), "My-Ledger");
    assert_eq!(portable_name_from_text("---"), "clone");
    assert_eq!(portable_name_from_text(""), "clone");
    assert_eq!(path_slug("Al.Newkirk"), "al_newkirk");
    assert_eq!(path_slug(""), "actor");
    assert_eq!(path_slug("A-b_C"), "a-b_c");
}

#[test]
fn urls_compare_without_trailing_slashes() {
    assert!(same_remote_url("https://a.example/", "https://a.example"));
    assert!(same_remote_url("https://a.example///", "https://a.example/"));
    assert!(!same_remote_url("https://a.example/x", "https://a.example"));
    assert_eq!(trim_char("--a-b--", '-', true), "a-b");
    assert_eq!(trim_char("--a-b--", '-', false), "--a-b");
}
