use fact_cli::json::Json;
use fact_cli::overview::{
    format_show_author, format_show_overview, Authored, ConflictGroup, ConflictRevision,
    HistoryLine, ShowHumanOptions, ShowOverview,
};

fn text(s: &str) -> Json {
    Json::Str(s.to_owned())
}

fn object(members: Vec<(&str, Json)>) -> Json {
    Json::Object(members.into_iter().map(|(k, v)| (k.to_owned(), v)).collect())
}

fn quiet() -> ShowHumanOptions {
    ShowHumanOptions {
        show_empty_conflicts: false,
        show_empty_pending: false,
        show_participants: false,
        show_history: false,
        show_content: false,
    }
}

fn bare(reference: &str) -> ShowOverview {
    ShowOverview {
        reference: reference.to_owned(),
        display_status: "open".to_owned(),
        summary: "Adopt the plan".to_owned(),
        deliberation_ref: None,
        settlement_ref: None,
        effective_revision: None,
        tags: vec![],
        conflicts: vec![],
        current_actor_pending: false,
        pending_actions: vec![],
        revisions: vec![],
        revisions_truncated: false,
        deliberations: vec![],
        comments: vec![],
        comments_truncated: false,
        history: vec![],
        history_truncated: false,
        content: None,
    }
}

#[test]
fn bare_overview_has_heading_and_next() {
    let out = format_show_overview(&bare("p-1a2b"), quiet());
    assert_eq!(
        out,
        "p-1a2b  open  Adopt the plan\n\nNext\n  no pending actions for you\n"
    );
}

#[test]
fn author_prefers_author_object_then_actor_reference() {
    let with_author = Authored {
        value: object(vec![(
            "author",
            object(vec![("display_name", text("Ada")), ("alias", text("ada"))]),
        )]),
        actor_ref: Some("a-123".to_owned()),
    };
    assert_eq!(format_show_author(&with_author), "Ada (@ada)");
    let by_actor = Authored {
        value: object(vec![("author", text("not an object"))]),
        actor_ref: Some("a-123".to_owned()),
    };
    assert_eq!(format_show_author(&by_actor), "a-123");
    let nobody = Authored { value: Json::Null, actor_ref: None };
    assert_eq!(format_show_author(&nobody), "-");
}

#[test]
fn full_overview_sections_in_order() {
    let mut o = bare("p-1");
    o.effective_revision = Some(Authored {
        value: object(vec![("reference", text("r-9")), ("created_at", text("2024-01-02"))]),
        actor_ref: Some("a-7".to_owned()),
    });
    o.deliberation_ref = Some("d-3".to_owned());
    o.settlement_ref = Some("s-4".to_owned());
    o.tags = vec!["alpha".to_owned(), "beta".to_owned()];
    o.current_actor_pending = true;
    o.pending_actions = vec![
        object(vec![("command", text("fact vote p-1"))]),
        object(vec![]),
    ];
    o.revisions = vec![
        object(vec![
            ("highlighted", Json::Bool(true)),
            ("reference", text("r-9")),
            ("status", text("accepted")),
            ("created_at", text("2024-01-02")),
            ("summary", text("First")),
        ]),
        object(vec![("reference", text("r-8"))]),
    ];
    o.revisions_truncated = true;
    o.deliberations = vec![object(vec![
        ("reference", text("d-3")),
        ("body", object(vec![("revision_id", text("r-9"))])),
        (
            "participants",
            Json::Array(vec![object(vec![("alias", text("bob"))]), Json::Null]),
        ),
    ])];
    o.comments = vec![Authored {
        value: object(vec![
            ("reference", text("c-1")),
            ("created_at", text("2024-01-03")),
            ("summary", text("Looks good")),
        ]),
        actor_ref: None,
    }];
    o.comments_truncated = true;
    o.history = vec![HistoryLine {
        reference: "r-9".to_owned(),
        object_type: "revision".to_owned(),
        created_at: "2024-01-02".to_owned(),
        description: "created".to_owned(),
    }];
    o.history_truncated = true;
    o.content = Some("line one\nline two".to_owned());
    let options = ShowHumanOptions {
        show_empty_conflicts: true,
        show_empty_pending: false,
        show_participants: true,
        show_history: true,
        show_content: true,
    };
    let expected = [
        "p-1  open  Adopt the plan\n",
        "\nEffective revision\n",
        "  revision:      r-9\n",
        "  created:       2024-01-02\n",
        "  author:        a-7\n",
        "  deliberation:  d-3\n",
        "  settlement:    s-4\n",
        "\nTags\n  alpha  beta\n",
        "\nConflicts\n  no revision conflicts\n",
        "\nPending\n  fact vote p-1\n  pending action\n",
        "\nRevisions\n",
        "* r-9  accepted  2024-01-02  First\n",
        "  r-8  -  -  No summary\n",
        "  ... more revisions hidden; use --revisions N\n",
        "\nDeliberations\n",
        "  d-3  revision r-9\n",
        "    participant @bob\n",
        "    participant -\n",
        "\nComments\n",
        "  c-1  -  2024-01-03\n",
        "    Looks good\n",
        "  ... older comments hidden; use --comments N\n",
        "\nHistory\n",
        "  r-9  revision  2024-01-02  created\n",
        "  ... more history hidden; use --limit N\n",
        "\nNext\n  fact vote p-1\n  pending action\n",
        "\nContent\n  line one\n  line two\n",
    ]
    .concat();
    assert_eq!(format_show_overview(&o, options), expected);
}

#[test]
fn conflicts_point_next_step_at_resolve() {
    let mut o = bare("p-2");
    o.conflicts = vec![ConflictGroup {
        common_ancestor_ref: Some("r-1".to_owned()),
        conflicts: vec![
            ConflictRevision {
                revision_ref: "r-2".to_owned(),
                status: "proposed".to_owned(),
                deliberation_ref: Some("d-5".to_owned()),
                settlement_ref: None,
            },
            ConflictRevision {
                revision_ref: "r-3".to_owned(),
                status: "proposed".to_owned(),
                deliberation_ref: None,
                settlement_ref: Some("s-6".to_owned()),
            },
        ],
    }];
    o.pending_actions = vec![object(vec![("command", text("fact vote p-2"))])];
    let mut options = quiet();
    options.show_empty_pending = true;
    let expected = [
        "p-2  open  Adopt the plan\n",
        "\nConflicts\n",
        "  common ancestor: r-1\n",
        "  revision r-2  proposed  deliberation d-5\n",
        "  revision r-3  proposed  settlement s-6\n",
        "\nPending\n  fact vote p-2\n",
        "\nNext\n  fact resolve p-2\n",
    ]
    .concat();
    assert_eq!(format_show_overview(&o, options), expected);
}

#[test]
fn hidden_sections_stay_hidden() {
    let mut o = bare("p-3");
    o.deliberations = vec![object(vec![("reference", text("d-1"))])];
    o.history = vec![HistoryLine {
        reference: "x".to_owned(),
        object_type: "y".to_owned(),
        created_at: "z".to_owned(),
        description: "w".to_owned(),
    }];
    o.content = Some("body\n".to_owned());
    let out = format_show_overview(&o, quiet());
    assert_eq!(out, "p-3  open  Adopt the plan\n\nNext\n  no pending actions for you\n");
    let mut options = quiet();
    options.show_content = true;
    let out = format_show_overview(&o, options);
    assert!(out.ends_with("\nContent\n  body\n"), "{out:?}");
}
