use fact_cli::arguments::{
    parse_comment_since, parse_i64, parse_reconciliation_conflict, parse_tag_operation,
    split_text, CommentSince, TagOperation,
};
use fact_cli::display::format_ledger_proposition_counts;
use fact_cli::errors::FactError;
use fact_cli::invitations::{
    accepted_invitation_ids, format_invitations_list, invitation_lifecycle_statuses, LifecycleRow,
};
use fact_cli::json::Json;
use fact_cli::remotes::{
    configured_remote, configured_remote_for_ledger, matching_remote, remote_line, scoped_remotes,
    RemoteEntry,
};
use fact_cli::tokens::{http_token_expiry_days, issued_http_token_human_output, IssuedToken};

const A: &str = "01890a5d-ac96-774b-bcce-b302099a8057";
const B: &str = "01890a5d-ac96-774b-bcce-b302099a8058";

fn id(text: &str) -> u128 {
    uuid::Uuid::parse_str(text).unwrap().as_u128()
}

fn message(error: FactError) -> String {
    match error {
        FactError::User(message) => message,
        FactError::Uuid(text) => format!("uuid: {text}"),
        FactError::Json(text) => format!("json: {text}"),
        _ => panic!("unexpected error kind"),
    }
}

fn row(object: u128, target: Option<u128>, operation: &str, payload: &str) -> LifecycleRow {
    LifecycleRow {
        object_id: object,
        target_id: target,
        operation: operation.into(),
        payload: payload.as_bytes().to_vec(),
    }
}

#[test]
fn invitation_status_follows_the_open_lifecycle_events() {
    let first = uuid::Uuid::now_v7().as_u128();
    let second = uuid::Uuid::now_v7();
    let rows = vec![
        row(first, Some(id(A)), "decline", "{}"),
        row(
            2,
            None,
            "revoke",
            &format!("{{\"body\":{{\"invitation_id\":\"{A}\",\"predecessor_lifecycle_ids\":[\"{}\"]}}}}", uuid::Uuid::from_u128(first)),
        ),
        row(second.as_u128(), Some(id(B)), "decline", "{}"),
        row(4, Some(id(B)), "supersede", "{}"),
        row(5, None, "revoke", "{\"body\":{}}"),
    ];
    let statuses = invitation_lifecycle_statuses(&rows).unwrap();
    assert_eq!(statuses, vec![(id(A), "revoke".to_string()), (id(B), "conflict".to_string())]);
    assert!(invitation_lifecycle_statuses(&Vec::new()).unwrap().is_empty());
    let broken = vec![row(1, Some(id(A)), "revoke", "not json")];
    assert!(matches!(invitation_lifecycle_statuses(&broken), Err(FactError::Json(_))));
}

#[test]
fn accepted_invitations_come_from_join_changes() {
    let payloads = vec![
        format!("{{\"body\":{{\"operation\":\"join\",\"invitation_id\":\"{A}\"}}}}").into_bytes(),
        format!("{{\"body\":{{\"operation\":\"leave\",\"invitation_id\":\"{B}\"}}}}").into_bytes(),
        format!("{{\"body\":{{\"operation\":\"join\",\"invitation_id\":\"{A}\"}}}}").into_bytes(),
        b"{\"body\":{\"operation\":\"join\"}}".to_vec(),
    ];
    assert_eq!(accepted_invitation_ids(&payloads).unwrap(), vec![id(A)]);
    assert!(accepted_invitation_ids(&vec![b"[".to_vec()]).is_err());
}

#[test]
fn invitation_lists_show_one_line_each() {
    assert_eq!(format_invitations_list(&Vec::new()), "no invitations");
    let item = Json::Object(vec![
        ("reference".into(), Json::Str("i1".into())),
        ("direction".into(), Json::Str("received".into())),
        ("status".into(), Json::Str("active".into())),
    ]);
    assert_eq!(
        format_invitations_list(&vec![item, Json::Null]),
        "i1  received  active  -  No summary\n-  -  -  -  No summary"
    );
}

#[test]
fn tag_actions_have_synonyms() {
    assert_eq!(parse_tag_operation("list").unwrap(), TagOperation::Show);
    assert_eq!(parse_tag_operation("create").unwrap(), TagOperation::Add);
    assert_eq!(parse_tag_operation("rm").unwrap(), TagOperation::Remove);
    assert_eq!(parse_tag_operation("update").unwrap(), TagOperation::Replace);
    assert_eq!(parse_tag_operation("clear").unwrap(), TagOperation::Clear);
    assert_eq!(
        message(parse_tag_operation("drop").unwrap_err()),
        "unknown tag action: drop. Use show, add, remove, set, or clear"
    );
}

#[test]
fn conflict_triples_name_three_uuids() {
    let triple = format!("{A}:{B}:{A}");
    let conflict = parse_reconciliation_conflict(&triple).unwrap();
    assert_eq!(conflict.revision_id, id(A));
    assert_eq!(conflict.deliberation_id, id(B));
    assert_eq!(conflict.settlement_id, id(A));
    assert_eq!(
        message(parse_reconciliation_conflict("a::b").unwrap_err()),
        "--conflict must be REVISION:DELIBERATION:SETTLEMENT, got \"a::b\""
    );
    assert_eq!(
        message(parse_reconciliation_conflict(&format!("{A}:{B}")).unwrap_err()),
        format!("--conflict must be REVISION:DELIBERATION:SETTLEMENT, got \"{A}:{B}\"")
    );
    assert!(message(parse_reconciliation_conflict("x:y:z").unwrap_err()).starts_with("uuid: "));
    assert_eq!(split_text("a:b::c", ':'), vec!["a", "b", "", "c"]);
    assert_eq!(split_text("", ':'), vec![""]);
}

#[test]
fn since_takes_days_hours_or_a_time() {
    assert_eq!(parse_comment_since(" 7d ").unwrap(), CommentSince::DaysAgo(7));
    assert_eq!(parse_comment_since("24h").unwrap(), CommentSince::HoursAgo(24));
    assert_eq!(parse_comment_since("2025-01-01").unwrap(), CommentSince::At("2025-01-01".into()));
    assert_eq!(message(parse_comment_since("xd").unwrap_err()), "--since duration must look like 7d");
    assert_eq!(message(parse_comment_since("h").unwrap_err()), "--since duration must look like 24h");
    for text in ["0", "-5", "+12", "9223372036854775807", "-9223372036854775808", "9223372036854775808", "", "-", "1a"] {
        assert_eq!(parse_i64(text), text.parse::<i64>().ok(), "parsing {text:?}");
    }
}

#[test]
fn ledger_counts_are_shown_in_order() {
    let counts = Json::Object(vec![
        ("total".into(), Json::Number("12".into())),
        ("accepted".into(), Json::Number("7".into())),
        ("pending".into(), Json::Number("-1".into())),
        ("update_pending".into(), Json::Number("1.5".into())),
    ]);
    assert_eq!(
        format_ledger_proposition_counts(&counts),
        "12 total, 7 accepted, 0 pending, 0 rejected, 0 contested, 0 withdrawn, 0 archived, 0 update pending"
    );
}

fn entry(name: &str, url: &str, ledger: Option<&str>) -> RemoteEntry {
    RemoteEntry {
        name: name.into(),
        url: url.into(),
        ledger: ledger.map(str::to_owned),
        genesis_hash: None,
        bearer_token: None,
    }
}

#[test]
fn remotes_are_chosen_by_name_scope_or_uniqueness() {
    let remotes = vec![entry("main", "https://a/", Some("L1")), entry("other", "https://b", Some("L2"))];
    assert_eq!(configured_remote(&remotes, Some("other")).unwrap().url, "https://b");
    assert_eq!(configured_remote(&remotes, Some("https://c")).unwrap().url, "https://c");
    assert_eq!(
        message(configured_remote(&remotes, None).unwrap_err()),
        "multiple remotes are configured; pass --remote NAME or URL"
    );
    assert_eq!(
        message(configured_remote(&Vec::new(), None).unwrap_err()),
        "no remote is configured; add one with fact ledger remote add NAME URL"
    );
    assert_eq!(configured_remote_for_ledger(&remotes, None, "L2").unwrap().url, "https://b");
    assert_eq!(
        message(configured_remote_for_ledger(&remotes, Some("main"), "L2").unwrap_err()),
        "remote main points to ledger L1, not active ledger L2"
    );
    assert_eq!(
        message(configured_remote_for_ledger(&remotes, None, "L3").unwrap_err()),
        "no remote is configured for ledger L3; pass --remote NAME or add a ledger-scoped remote"
    );
    let twins = vec![entry("a", "u", Some("L")), entry("b", "v", Some("L"))];
    assert_eq!(
        message(configured_remote_for_ledger(&twins, None, "L").unwrap_err()),
        "multiple remotes are configured for ledger L; pass --remote NAME"
    );
    let lone = vec![entry("solo", "https://s", None)];
    assert_eq!(configured_remote_for_ledger(&lone, None, "L").unwrap().url, "https://s");
    assert_eq!(scoped_remotes(&twins, "L").len(), 2);
    assert_eq!(matching_remote(&remotes, "https://a"), Some(0));
    assert_eq!(matching_remote(&remotes, "https://z"), None);
    assert_eq!(remote_line(&remotes[0]), "main  https://a/  L1");
    let mut full = entry("x", "u", Some("L"));
    full.genesis_hash = Some("g".into());
    assert_eq!(remote_line(&full), "x  u  L  g");
    assert_eq!(remote_line(&lone[0]), "solo  https://s");
}

#[test]
fn issued_tokens_are_shown_once() {
    assert!(http_token_expiry_days(Some(0)).is_err());
    assert_eq!(http_token_expiry_days(Some(3)).unwrap(), Some(3));
    assert_eq!(http_token_expiry_days(None).unwrap(), None);
    let token = IssuedToken {
        token_id: "t1".into(),
        actor_id: id(A),
        ledger_id: None,
        label: Some("ci".into()),
        token: "secret".into(),
    };
    assert_eq!(
        issued_http_token_human_output(&token, None),
        format!("issued token t1\nactor {A}\nledger -\nlabel ci\nsecret\nshown only once; store it now")
    );
    assert_eq!(
        issued_http_token_human_output(&token, Some("/tmp/tok")),
        format!("issued token t1\nactor {A}\nledger -\nlabel ci\nwrote credential /tmp/tok")
    );
}
