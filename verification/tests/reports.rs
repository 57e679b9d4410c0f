use fact_cli::json::Json;
use fact_cli::reports::{
    as_human_message, clone_message, directory_add_message, here_human_message, history_human,
    history_limit, invitation_reject_reason, lifecycle_reason, new_ledger_message,
    object_valid_message, remote_from_message, revise_message, status_key_flags, status_message,
    HistoryItem,
};

fn obj(members: Vec<(&str, Json)>) -> Json {
    Json::Object(members.into_iter().map(|(k, v)| (k.to_owned(), v)).collect())
}

fn s(x: &str) -> Json {
    Json::Str(x.to_owned())
}

#[test]
fn as_reports() {
    let signer = obj(vec![
        ("report", Json::Bool(true)),
        ("actor", obj(vec![("display_name", s("Ada")), ("alias", s("ada"))])),
        ("ledger", obj(vec![("name", s("main")), ("read_only", Json::Bool(false))])),
    ]);
    assert_eq!(as_human_message(&signer, Some("l-1")), "current signer for ledger main (l-1): Ada (ada)");
    let nobody = obj(vec![
        ("report", Json::Bool(true)),
        ("actor", Json::Null),
        ("ledger", obj(vec![("name", s("mirror")), ("read_only", Json::Bool(true))])),
    ]);
    assert_eq!(as_human_message(&nobody, None), "no current signer for ledger mirror (read-only)");
    let named = obj(vec![("self", Json::Bool(true)), ("actor", obj(vec![("display_name", s("Ada"))]))]);
    assert_eq!(as_human_message(&named, None), "named current identity as Ada");
    assert_eq!(as_human_message(&obj(vec![]), None), "using identity for ledger ledger");
}

#[test]
fn here_and_new_reports() {
    let ledger = obj(vec![("name", s("default")), ("ledger_id", s("l-9"))]);
    assert_eq!(
        here_human_message(true, "/w/.facts", Some(&ledger), true),
        "initialized Fact environment at /w/.facts\ninitialized ledger default (l-9)\nFACT_HOME is set; normal commands will keep using FACT_HOME until it is unset"
    );
    assert_eq!(here_human_message(false, "/w/.facts", None, false), "Fact environment already exists at /w/.facts");
    assert_eq!(new_ledger_message(true, "main", "l-1"), "created ledger main (l-1)");
    assert_eq!(new_ledger_message(false, "main", "l-1"), "ledger main already exists (l-1)");
}

#[test]
fn clone_and_remote_reports() {
    assert_eq!(
        clone_message(true, true, false, "team", "a-1"),
        "cloned writable ledger team; descriptor file still contains a live credential"
    );
    assert_eq!(
        clone_message(true, true, true, "team", ""),
        "cloned read-only ledger team; descriptor file still contains a live credential"
    );
    assert_eq!(clone_message(true, false, true, "team", ""), "cloned read-only ledger team");
    assert_eq!(clone_message(false, true, false, "team", "a-1"), "cloned writable ledger team as a-1");
    assert_eq!(remote_from_message("origin", false), "configured remote origin");
    assert_eq!(
        remote_from_message("origin", true),
        "configured remote origin; descriptor file still contains a live credential"
    );
}

#[test]
fn revise_and_status_reports() {
    assert_eq!(
        revise_message("r-2", Some(true), Some(3), "p-1"),
        "Revision created: r-2\nPrevious revision remains effective.\nNew revision is pending acceptance from 3 participant(s).\n\nNext:\n  fact accept p-1\n  fact reject p-1"
    );
    assert!(revise_message("r-2", None, None, "p-1").contains("No revision is currently effective.\nNew revision is pending acceptance from 0 participant(s)."));
    assert_eq!(status_key_flags(false, true, true), (true, false));
    assert_eq!(status_key_flags(false, true, false), (false, true));
    assert_eq!(status_key_flags(true, true, false), (false, false));
    assert_eq!(status_key_flags(false, false, false), (false, false));
    assert_eq!(
        status_message("main", "l-1", 2, 1, &Some("work".to_owned()), false),
        "main  l-1  2 pending action(s), 1 remote(s)  persona work"
    );
    assert_eq!(
        status_message("main", "l-1", 0, 0, &None, true),
        "main  l-1  0 pending action(s), 0 remote(s)\nwarning: local private key material is missing; writes will fail until the identity key is restored or rotated"
    );
}

#[test]
fn history_and_misc_reports() {
    let items = vec![
        HistoryItem {
            reference: "r-1".to_owned(),
            created_at: "t1".to_owned(),
            object_type: "revision".to_owned(),
            actor_display: Some("Ada".to_owned()),
            actor_id: Some(1),
            description: "created".to_owned(),
        },
        HistoryItem {
            reference: "r-2".to_owned(),
            created_at: "t2".to_owned(),
            object_type: "decision".to_owned(),
            actor_display: None,
            actor_id: Some(2),
            description: "accepted".to_owned(),
        },
        HistoryItem {
            reference: "r-3".to_owned(),
            created_at: "t3".to_owned(),
            object_type: "tag".to_owned(),
            actor_display: None,
            actor_id: None,
            description: "x".to_owned(),
        },
    ];
    assert_eq!(
        history_human(&items),
        "r-1  t1  revision  Ada  created\nr-2  t2  decision  00000000-0000-0000-0000-000000000002  accepted\nr-3  t3  tag  -  x\n"
    );
    assert_eq!(history_human(&vec![]), "");
    assert_eq!(history_limit(Some(5), false), Some(5));
    assert_eq!(history_limit(None, false), Some(100));
    assert_eq!(history_limit(None, true), None);
    assert_eq!(directory_add_message("Ada", "a-1", None), "added Ada as a-1");
    assert_eq!(directory_add_message("Ada", "a-1", Some(("t-1", "secret"))), "added Ada as a-1\nissued token t-1\nsecret");
    assert_eq!(object_valid_message(true, "revision", 120), "valid signed revision object bytes (120)");
    assert_eq!(object_valid_message(false, "actor", 7), "valid canonical actor object bytes (7)");
    assert_eq!(lifecycle_reason(None), "user requested lifecycle change");
    assert_eq!(lifecycle_reason(Some("old".to_owned())), "old");
    assert_eq!(invitation_reject_reason(None), "rejected from fact invitations");
}
