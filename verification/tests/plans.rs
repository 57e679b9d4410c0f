use fact_cli::errors::FactError;
use fact_cli::plans::{
    find_selection, paged, permission_revoke_target, personal_pull_steps, personal_push_steps,
    pull_plan, push_plan, remote_auth_message,
    remote_auth_source, AuthSource, FindHit, PullOptions, RevokeTarget, SyncPlan,
};

fn s(x: &str) -> Option<String> {
    Some(x.to_owned())
}

fn forwarded(r: Result<SyncPlan, FactError>) -> Vec<String> {
    match r {
        Ok(SyncPlan::Forward(a)) => a,
        _ => panic!("expected forwarding"),
    }
}

fn refusal(r: Result<SyncPlan, FactError>) -> String {
    match r {
        Err(FactError::User(m)) => m,
        _ => panic!("expected a refusal"),
    }
}

fn no_options() -> PullOptions {
    PullOptions { known_hashes: None, after: None, limit: None, max_object_bytes: None, remote: None }
}

#[test]
fn push_modes() {
    assert_eq!(forwarded(push_plan(s("db"), s("f"), None, s("l"))), vec!["sync", "push", "db", "f", "--ledger", "l"]);
    assert_eq!(
        forwarded(push_plan(s("db"), s("f"), s("r"), None)),
        vec!["sync", "push", "db", "f", "--remote", "r"]
    );
    assert!(matches!(push_plan(None, None, s("r"), None), Ok(SyncPlan::Personal)));
    assert_eq!(refusal(push_plan(s("db"), None, None, None)), "fact push requires both DATABASE and FILE, or neither");
}

#[test]
fn pull_modes() {
    let all = PullOptions {
        known_hashes: s("k.txt"),
        after: s("h1"),
        limit: Some(50),
        max_object_bytes: Some(1024),
        remote: s("origin"),
    };
    assert_eq!(
        forwarded(pull_plan(s("db"), s("l"), s("out"), &all, false)),
        vec!["sync", "pull", "db", "l", "out", "--known-hashes", "k.txt", "--after", "h1", "--limit", "50", "--max-object-bytes", "1024", "--remote", "origin"]
    );
    assert!(matches!(pull_plan(None, None, None, &no_options(), true), Ok(SyncPlan::Personal)));
    assert_eq!(
        refusal(pull_plan(None, None, None, &no_options(), false)),
        "no local ledger is active; use `fact clone --remote NAME --ledger LEDGER` first"
    );
    assert_eq!(
        refusal(pull_plan(None, None, None, &all, true)),
        "fact pull requires DATABASE, LEDGER, and OUTPUT, or none"
    );
    assert_eq!(
        refusal(pull_plan(s("db"), None, None, &no_options(), true)),
        "fact pull requires DATABASE, LEDGER, and OUTPUT, or none"
    );
}

#[test]
fn auth_sources() {
    assert!(matches!(remote_auth_source(true, s("f"), true, s("t")), Ok(AuthSource::Clear)));
    assert!(matches!(remote_auth_source(false, s("f"), true, s("t")), Ok(AuthSource::File(f)) if f == "f"));
    assert!(matches!(remote_auth_source(false, None, true, s("t")), Ok(AuthSource::Stdin)));
    assert!(matches!(remote_auth_source(false, None, false, s("t")), Ok(AuthSource::Token(t)) if t == "t"));
    match remote_auth_source(false, None, false, None) {
        Err(FactError::User(m)) => assert_eq!(m, "remote auth requires TOKEN, --input, --stdin, or --clear"),
        _ => panic!("refusal"),
    }
    assert_eq!(remote_auth_message(true, "o"), "cleared auth for remote o");
    assert_eq!(remote_auth_message(false, "o"), "stored auth for remote o");
}

fn hits(n: usize) -> Vec<FindHit> {
    (0..n)
        .map(|i| FindHit { reference: format!("p-{i}"), summary: format!("S{i}") })
        .collect()
}

#[test]
fn find_picks() {
    let none = find_selection("sqlite db", &hits(0), Some(1)).unwrap_err();
    assert_eq!(none.message, "no accepted propositions matched \"sqlite db\"");
    assert!(none.listing.is_none());
    assert_eq!(find_selection("x", &hits(1), None).unwrap(), 0);
    assert_eq!(find_selection("x", &hits(1), Some(0)).unwrap_err().message, "--pick starts at 1");
    assert_eq!(find_selection("x", &hits(3), Some(2)).unwrap(), 1);
    assert_eq!(
        find_selection("x", &hits(3), Some(4)).unwrap_err().message,
        "--pick 4 is out of range; choose 1-3"
    );
    let many = find_selection("q", &hits(2), None).unwrap_err();
    assert_eq!(many.message, "provide --pick N to select one result");
    assert_eq!(
        many.listing.as_deref(),
        Some("multiple accepted propositions matched \"q\"\n  1. p-0  S0\n  2. p-1  S1\n")
    );
}

#[test]
fn pages_follow_skip_and_take() {
    let items: Vec<u32> = (0..10).collect();
    for offset in [0usize, 3, 9, 10, 15] {
        for limit in [0usize, 1, 4, 20] {
            let expected: Vec<u32> = items
                .iter()
                .cloned()
                .skip(offset)
                .take(if limit == 0 { usize::MAX } else { limit })
                .collect();
            assert_eq!(paged(items.clone(), offset, limit), expected, "offset {offset} limit {limit}");
        }
    }
}

#[test]
fn revoke_targets() {
    assert!(matches!(permission_revoke_target(true, s("a"), None), Ok(RevokeTarget::Participation(i)) if i == "a"));
    assert!(matches!(permission_revoke_target(false, s("a"), s("g")), Ok(RevokeTarget::Grant(g)) if g == "g"));
    match permission_revoke_target(true, None, s("g")) {
        Err(FactError::User(m)) => assert_eq!(m, "--participate revoke requires --identity"),
        _ => panic!("refusal"),
    }
    match permission_revoke_target(false, s("a"), None) {
        Err(FactError::User(m)) => assert_eq!(m, "permission revoke requires a grant reference"),
        _ => panic!("refusal"),
    }
}

#[test]
fn personal_sync_commands() {
    let (first, second) =
        personal_push_steps(false, "/db", "L", "/tmp/b.bundle", "https://r", Some("tok")).unwrap();
    assert_eq!(first, vec!["sync", "pull", "/db", "L", "/tmp/b.bundle"]);
    assert_eq!(
        second,
        vec!["sync", "push", "/db", "/tmp/b.bundle", "--remote", "https://r", "--ledger", "L", "--bearer-token", "tok"]
    );
    let (first, second) =
        personal_pull_steps(false, "/db", "L", "/tmp/b.bundle", "https://r", None).unwrap();
    assert_eq!(first, vec!["sync", "pull", "/db", "L", "/tmp/b.bundle", "--remote", "https://r"]);
    assert_eq!(second, vec!["object", "import", "/db", "/tmp/b.bundle"]);
    match personal_push_steps(true, "/db", "L", "b", "u", None) {
        Err(FactError::User(m)) => assert_eq!(m, "cannot push from a read-only ledger"),
        other => panic!("unexpected: {other:?}"),
    }
    match personal_pull_steps(true, "/db", "L", "b", "u", None) {
        Err(FactError::User(m)) => assert_eq!(m, "cannot pull into a read-only ledger"),
        other => panic!("unexpected: {other:?}"),
    }
}
