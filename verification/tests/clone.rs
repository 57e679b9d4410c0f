use fact_cli::actor_exchange::ActorClaims;
use fact_cli::clone::{
    clone_claims_to_apply, clone_pull_args, clone_source_choice, clone_source_from_descriptor, clone_source_from_remote,
    clone_remote_to_create, clone_source_from_url, contextualize_clone_import_error, CloneSourceKind,
};
use fact_cli::faults::{ReportedError, SdkError, StoreError};
use fact_cli::errors::FactError;
use fact_cli::remotes::{ConfiguredRemote, RemoteEntry};

fn s(x: &str) -> Option<String> {
    Some(x.to_owned())
}

fn user_message(r: Result<CloneSourceKind, FactError>) -> String {
    match r {
        Err(FactError::User(m)) => m,
        _ => panic!("expected a user error"),
    }
}

#[test]
fn exactly_one_clone_source() {
    assert!(matches!(clone_source_choice(s("https://x"), None, None), Ok(CloneSourceKind::Source(u)) if u == "https://x"));
    assert!(matches!(clone_source_choice(None, s("origin"), None), Ok(CloneSourceKind::Remote(n)) if n == "origin"));
    assert!(matches!(clone_source_choice(None, None, s("d.json")), Ok(CloneSourceKind::Descriptor(p)) if p == "d.json"));
    assert_eq!(
        user_message(clone_source_choice(None, None, None)),
        "fact clone requires SOURCE, --remote NAME, or --from FILE"
    );
    assert_eq!(
        user_message(clone_source_choice(s("a"), s("b"), None)),
        "fact clone accepts only one of SOURCE, --remote NAME, or --from FILE"
    );
}

#[test]
fn clone_sources_carry_remote_settings() {
    let entry = RemoteEntry {
        name: "origin".to_owned(),
        url: "https://x".to_owned(),
        ledger: s("l-1"),
        genesis_hash: s("gh"),
        bearer_token: s("tok"),
    };
    let c = clone_source_from_url("https://x".to_owned(), true, Some(&entry));
    assert_eq!(c.remote_name.as_deref(), Some("origin"));
    assert_eq!(c.bearer_token.as_deref(), Some("tok"));
    assert!(c.is_remote_url && !c.from_descriptor);
    let c = clone_source_from_url("/tmp/b.bundle".to_owned(), false, None);
    assert_eq!((c.url.as_str(), c.name_source.as_str()), ("/tmp/b.bundle", "/tmp/b.bundle"));
    assert!(c.remote_name.is_none() && !c.is_remote_url);
    let c = clone_source_from_remote(
        "up".to_owned(),
        ConfiguredRemote { url: "https://y".to_owned(), ledger: None, genesis_hash: s("g"), bearer_token: None },
    );
    assert_eq!((c.url.as_str(), c.name_source.as_str(), c.remote_name.as_deref()), ("https://y", "up", Some("up")));
    let claims = ActorClaims { display_name: s("Ada"), alias: None, actor_type: None };
    let c = clone_source_from_descriptor(entry, s("u-1"), Some(claims.clone()));
    assert!(c.from_descriptor && c.is_remote_url);
    assert_eq!(c.claims, Some(claims));
    assert_eq!(c.actor.as_deref(), Some("u-1"));
}

#[test]
fn pull_arguments() {
    assert_eq!(
        clone_pull_args("https://x", &s("tok"), "/tmp/d.sqlite", "main", "/tmp/b.bundle"),
        vec!["sync", "pull", "--remote", "https://x", "--bearer-token=tok", "--", "/tmp/d.sqlite", "main", "/tmp/b.bundle"]
    );
    assert_eq!(
        clone_pull_args("u", &None, "d", "l", "b"),
        vec!["sync", "pull", "--remote", "u", "--", "d", "l", "b"]
    );
}

#[test]
fn clone_claims_only_for_own_writable_actor() {
    let entry = RemoteEntry { name: "o".to_owned(), url: "u".to_owned(), ledger: None, genesis_hash: None, bearer_token: None };
    let named = ActorClaims { display_name: s("Ada"), alias: None, actor_type: None };
    let c = clone_source_from_descriptor(entry, s("u-1"), Some(named.clone()));
    assert_eq!(clone_claims_to_apply(false, &c, "u-1"), Some(&named));
    assert_eq!(clone_claims_to_apply(true, &c, "u-1"), None);
    assert_eq!(clone_claims_to_apply(false, &c, "u-2"), None);
    let entry = RemoteEntry { name: "o".to_owned(), url: "u".to_owned(), ledger: None, genesis_hash: None, bearer_token: None };
    let unnamed = ActorClaims { display_name: None, alias: s("a"), actor_type: None };
    let c = clone_source_from_descriptor(entry, s("u-1"), Some(unnamed));
    assert_eq!(clone_claims_to_apply(false, &c, "u-1"), None);
}

#[test]
fn clone_import_errors_gain_a_diagnostic_when_data_is_missing() {
    let objects = vec![Ok(br#"{"id":"a","object_type":"actor","ledger_id":"L"}"#.to_vec())];
    match contextualize_clone_import_error(
        SdkError::Store(StoreError::MissingDependency),
        "missing dependency",
        &objects,
    ) {
        ReportedError::Fact(FactError::User(m)) => assert_eq!(
            m,
            "missing dependency; missing ledger-scoped genesis object for ledger L"
        ),
        other => panic!("unexpected: {other:?}"),
    }
    let unrelated = contextualize_clone_import_error(
        SdkError::Store(StoreError::Duplicate),
        "duplicate",
        &objects,
    );
    assert!(matches!(unrelated, ReportedError::Sdk(SdkError::Store(StoreError::Duplicate))));
    let closed = vec![
        Ok(br#"{"id":"g","object_type":"genesis","ledger_id":"L"}"#.to_vec()),
    ];
    let kept = contextualize_clone_import_error(
        SdkError::Store(StoreError::MissingKey),
        "missing key",
        &closed,
    );
    assert!(matches!(kept, ReportedError::Sdk(SdkError::Store(StoreError::MissingKey))));
}

#[test]
fn clone_saves_a_remote_only_for_a_new_url() {
    let saved = vec![RemoteEntry {
        name: "origin".to_owned(),
        url: "https://x/".to_owned(),
        ledger: None,
        genesis_hash: None,
        bearer_token: None,
    }];
    let fresh = clone_source_from_url("https://y".to_owned(), true, None);
    assert_eq!(clone_remote_to_create("work", &fresh, &saved).unwrap(), s("work"));
    let known = clone_source_from_url("https://x".to_owned(), true, None);
    assert_eq!(clone_remote_to_create("work", &known, &saved).unwrap(), None);
    let file = clone_source_from_url("/tmp/b.bundle".to_owned(), false, None);
    assert_eq!(clone_remote_to_create("work", &file, &saved).unwrap(), None);
    match clone_remote_to_create("origin", &fresh, &saved) {
        Err(FactError::User(m)) => assert_eq!(
            m,
            "remote already exists: origin; pass --remote NAME to reuse it or choose another clone name"
        ),
        other => panic!("unexpected: {other:?}"),
    }
}
