use fact_cli::invitations::{
    format_invitation_show, invitation_direction, invitation_in_scope, invitation_listed_status,
    invitation_next_actions, InvitationListScope,
};
use fact_cli::json::Json;
use fact_cli::outcomes::{
    decision_human_message, resolve_human_message, DecisionOutcome, ResolveOutcome,
};
use fact_cli::resolve::{
    conflict_tip_revisions, conflicting_revision, distinct_picked_revisions, is_stdin_path,
    merge_source, merge_tool_command, plan_resolution, resolution_template, single_conflict_group,
    MergeSource,
    ResolutionMode, ResolveCliInput,
};

fn input() -> ResolveCliInput {
    ResolveCliInput {
        reference: None,
        file: None,
        keep: None,
        message: None,
        merge: false,
        pick: vec![],
        tool: None,
    }
}

fn plan_error(i: &ResolveCliInput) -> String {
    match plan_resolution(i) {
        Ok(_) => panic!("expected an error"),
        Err(e) => e,
    }
}

#[test]
fn resolve_flags_are_checked_in_order() {
    let mut i = input();
    i.tool = Some("meld".to_owned());
    assert_eq!(plan_error(&i), "--tool requires --merge");
    let mut i = input();
    i.pick = vec!["r1".to_owned()];
    i.tool = Some("meld".to_owned());
    assert_eq!(plan_error(&i), "--pick requires --merge");
    let mut i = input();
    i.keep = Some("r1".to_owned());
    i.message = Some("text".to_owned());
    assert_eq!(plan_error(&i), "choose only one resolution content mode");
    let mut i = input();
    i.merge = true;
    i.file = Some("x.md".to_owned());
    assert_eq!(plan_error(&i), "choose only one resolution content mode");
}

#[test]
fn resolve_modes_and_selection() {
    let mut i = input();
    i.keep = Some("r1".to_owned());
    let p = plan_resolution(&i).unwrap();
    assert_eq!(p.mode, ResolutionMode::Keep);
    assert_eq!(p.mode.label(), "keep");
    assert_eq!(p.selection_reference.as_deref(), Some("r1"));

    let mut i = input();
    i.reference = Some("p1".to_owned());
    i.keep = Some("r1".to_owned());
    assert_eq!(plan_resolution(&i).unwrap().selection_reference.as_deref(), Some("p1"));

    let mut i = input();
    i.merge = true;
    i.pick = vec!["r2".to_owned(), "r3".to_owned()];
    i.tool = Some("meld".to_owned());
    let p = plan_resolution(&i).unwrap();
    assert_eq!(p.mode, ResolutionMode::Merge);
    assert_eq!(p.mode.label(), "merge");
    assert_eq!(p.selection_reference.as_deref(), Some("r2"));

    let mut i = input();
    i.message = Some("text".to_owned());
    let p = plan_resolution(&i).unwrap();
    assert_eq!(p.mode.label(), "message");
    assert_eq!(p.selection_reference, None);

    let mut i = input();
    i.file = Some("-".to_owned());
    assert_eq!(plan_resolution(&i).unwrap().mode.label(), "stdin");
    i.file = Some("notes.md".to_owned());
    assert_eq!(plan_resolution(&i).unwrap().mode.label(), "file");
    i.file = None;
    assert_eq!(plan_resolution(&i).unwrap().mode.label(), "author");
}

#[test]
fn stdin_path_follows_path_equality() {
    for p in ["-", "-/", "-//", "-/.", "-/./", "-/./."] {
        assert!(is_stdin_path(p), "{p}");
        assert_eq!(std::path::Path::new(p), std::path::Path::new("-"), "{p}");
    }
    for p in ["", "--", "./-", "-/..", "-/x", "-.", "-/.x", "x"] {
        assert!(!is_stdin_path(p), "{p}");
        assert_ne!(std::path::Path::new(p), std::path::Path::new("-"), "{p}");
    }
}

#[test]
fn exactly_one_conflict_group_is_selected() {
    assert_eq!(single_conflict_group(vec![7u8]), Ok(7));
    assert_eq!(
        single_conflict_group(Vec::<u8>::new()),
        Err("no revision conflicts".to_owned())
    );
    assert_eq!(
        single_conflict_group(vec![1u8, 2]),
        Err("multiple revision conflicts; run `fact conflicts` and pass a reference to `fact resolve`"
            .to_owned())
    );
}

#[test]
fn kept_revision_must_match_once() {
    let conflicts = vec![(10u128, false), (11, true), (12, false)];
    assert_eq!(conflicting_revision(5, None, &conflicts, "r"), Ok(11));
    assert_eq!(conflicting_revision(5, Some(5), &conflicts, "r"), Ok(11));
    assert_eq!(
        conflicting_revision(5, Some(6), &conflicts, "r"),
        Err("--keep references a revision in a different conflict".to_owned())
    );
    assert_eq!(
        conflicting_revision(5, None, &vec![(10, false)], "r"),
        Err("--keep must reference one of the conflicting revisions".to_owned())
    );
    assert_eq!(
        conflicting_revision(5, None, &vec![(10, true), (11, true)], "ab"),
        Err("that reference is ambiguous: ab. Use a full revision ID".to_owned())
    );
}

#[test]
fn merge_revisions_are_sorted_and_distinct() {
    assert_eq!(merge_source(0), Ok(MergeSource::ConflictTips));
    assert_eq!(merge_source(1), Err("--merge requires at least two --pick values".to_owned()));
    assert_eq!(merge_source(3), Ok(MergeSource::Picks));
    assert_eq!(conflict_tip_revisions(vec![4, 2]), Ok(vec![4, 2]));
    assert_eq!(
        conflict_tip_revisions(vec![4]),
        Err("--merge requires at least two --pick values for this conflict".to_owned())
    );
    let ids = vec![9u128, 3, 9, u128::MAX, 3, 0];
    let mut expected = ids.clone();
    expected.sort();
    expected.dedup();
    assert_eq!(distinct_picked_revisions(&ids), Ok(expected));
    assert_eq!(
        distinct_picked_revisions(&vec![5, 5, 5]),
        Err("--merge requires at least two distinct picked revisions".to_owned())
    );
}

#[test]
fn editor_template_lists_the_conflict() {
    let p = 0x0190_0000_0000_7000_8000_0000_0000_0001u128;
    let a = 0x0190_0000_0000_7000_8000_0000_0000_0002u128;
    let b = 0x0190_0000_0000_7000_8000_0000_0000_0003u128;
    let bytes = resolution_template(p, Some(a), &vec![b, a]);
    let expected = [
        "# Reconciliation\n\n<!--\n",
        "proposition: 01900000-0000-7000-8000-000000000001\n",
        "common ancestor: 01900000-0000-7000-8000-000000000002\n",
        "conflicting revision: 01900000-0000-7000-8000-000000000003\n",
        "conflicting revision: 01900000-0000-7000-8000-000000000002\n",
        "-->\n\n",
    ]
    .concat();
    assert_eq!(String::from_utf8(bytes).unwrap(), expected);
    let bare = resolution_template(p, None, &vec![]);
    assert_eq!(
        String::from_utf8(bare).unwrap(),
        "# Reconciliation\n\n<!--\nproposition: 01900000-0000-7000-8000-000000000001\n-->\n\n"
    );
}

#[test]
fn decision_messages() {
    let mut o = DecisionOutcome {
        proposition_ref: "p-1".to_owned(),
        revision_ref: "r-2".to_owned(),
        decision_ref: Some("d-3".to_owned()),
        settlement_ref: None,
        status: "open".to_owned(),
        pending_participant_count: Some(12),
        summary: "Plan".to_owned(),
    };
    assert_eq!(
        decision_human_message("Accepted", &o),
        "Accepted proposition p-1\nDecision recorded: d-3\nCurrent status: open\nPending participant(s): 12\nCurrent summary: Plan"
    );
    o.decision_ref = None;
    o.pending_participant_count = None;
    assert_eq!(
        decision_human_message("Rejected", &o),
        "Rejected proposition p-1\nDecision recorded: none\nCurrent status: open\nPending participant(s): 0\nCurrent summary: Plan"
    );
    o.settlement_ref = Some("s-4".to_owned());
    assert_eq!(
        decision_human_message("Accepted", &o),
        "Accepted proposition p-1\nEffective revision: r-2\nCurrent summary: Plan"
    );
}

#[test]
fn resolve_messages() {
    let mut o = ResolveOutcome {
        revision_ref: "r-1".to_owned(),
        result_revision_ref: None,
        reconciliation_ref: "p-9".to_owned(),
        pending_participant_count: 2,
    };
    assert_eq!(
        resolve_human_message(&o),
        "Resolution revision created: r-1\nPrevious conflicting revisions remain in history.\nNew revision is pending acceptance from 2 participant(s).\n\nNext:\n  fact accept p-9\n  fact reject p-9"
    );
    o.result_revision_ref = Some("r-5".to_owned());
    assert_eq!(
        resolve_human_message(&o),
        "Resolution revision created: r-1\nResult revision created: r-5\nPrevious conflicting revisions remain in history.\nResult and reconciliation are pending acceptance from 2 participant(s).\n\nNext:\n  fact accept p-9\n  fact accept r-5\n  fact reject p-9\n  fact reject r-5"
    );
}

fn text(s: &str) -> Json {
    Json::Str(s.to_owned())
}

#[test]
fn invitation_show_lists_fields_and_actions() {
    let invitation = Json::Object(vec![
        ("reference".to_owned(), text("i-1")),
        ("status".to_owned(), text("pending")),
        ("direction".to_owned(), text("incoming")),
        ("proposition_ref".to_owned(), text("p-2")),
        ("created_at".to_owned(), text("2024-05-06")),
        (
            "next_actions".to_owned(),
            Json::Array(vec![text("fact invitation accept i-1"), Json::Null]),
        ),
    ]);
    let expected = [
        "Invitation i-1\n\n",
        "Status:       pending\n",
        "Direction:    incoming\n",
        "Proposition:  p-2  No summary\n",
        "Revision:     -\n",
        "Deliberation: -\n",
        "From:         a-1\n",
        "To:           -\n",
        "Created:      2024-05-06\n",
        "\nNext:\n  fact invitation accept i-1\n",
    ]
    .concat();
    assert_eq!(
        format_invitation_show(&invitation, &Some("a-1".to_owned()), &None),
        expected
    );
    let empty = Json::Object(vec![("next_actions".to_owned(), Json::Array(vec![]))]);
    let shown = format_invitation_show(&empty, &None, &None);
    assert!(shown.starts_with("Invitation -\n\nStatus:       -\n"), "{shown}");
    assert!(shown.ends_with("Created:      -\n\nNext:\n  no invitation actions available\n"));
}

#[test]
fn invitation_listing_rules() {
    use_listing_rules();
}

fn use_listing_rules() {
    assert_eq!(invitation_listed_status(true, Some("decline"), true), "accepted");
    assert_eq!(invitation_listed_status(false, None, true), "closed");
    assert_eq!(invitation_listed_status(false, None, false), "active");
    assert_eq!(invitation_listed_status(false, Some("active"), true), "closed");
    assert_eq!(invitation_listed_status(false, Some("decline"), true), "rejected");
    assert_eq!(invitation_listed_status(false, Some("revoke"), false), "revoked");
    assert_eq!(invitation_direction(Some(1), Some(2), 1), "received");
    assert_eq!(invitation_direction(Some(3), Some(1), 1), "sent");
    assert_eq!(invitation_direction(None, None, 1), "other");
    assert_eq!(
        invitation_next_actions("active", true, "i-1"),
        vec!["fact invitations accept i-1", "fact invitations reject i-1", "fact join i-1"]
    );
    assert!(invitation_next_actions("active", false, "i-1").is_empty());
    assert!(invitation_next_actions("closed", true, "i-1").is_empty());
    assert!(invitation_in_scope(InvitationListScope::All, None, None, 1, None));
    assert!(invitation_in_scope(InvitationListScope::Sent, None, Some(1), 1, None));
    assert!(!invitation_in_scope(InvitationListScope::Sent, Some(1), None, 1, None));
    assert!(invitation_in_scope(InvitationListScope::Received, Some(1), None, 1, None));
    assert!(invitation_in_scope(InvitationListScope::Pending, Some(1), None, 1, Some("active")));
    assert!(!invitation_in_scope(InvitationListScope::Pending, Some(1), None, 1, Some("closed")));
}

#[test]
fn merge_tool_from_option_or_environment() {
    assert_eq!(merge_tool_command(Some("meld".into()), Some("kdiff3".into())).unwrap(), "meld");
    assert_eq!(merge_tool_command(None, Some("kdiff3".into())).unwrap(), "kdiff3");
    assert_eq!(
        merge_tool_command(None, None).unwrap_err(),
        "no merge tool configured; pass --tool or set FACT_MERGE"
    );
}
