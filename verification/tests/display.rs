use fact_cli::actor_exchange::ActorClaims;
use fact_cli::comments::{
    comment_matches_author, comment_matches_mention, comment_matches_since, comment_matches_text,
    filename_actor_mismatch, stem_actor_mismatch, text_contains,
};
use fact_cli::display::{
    expanded_help_text, format_actor_claims, format_actor_reference_value, indent_show_content,
    invitation_status_label, should_page, summary_for_comment_markdown, text_lines,
    validate_find_with_command, PagerPolicy,
};
use fact_cli::errors::FactError;
use fact_cli::fact_as::{reports_current_signer, requested_actor, shell_escape, ActorProfile, Input};
use fact_cli::json::Json;

fn obj(members: &[(&str, &str)]) -> Json {
    Json::Object(
        members
            .iter()
            .map(|(k, v)| (k.to_string(), Json::Str(v.to_string())))
            .collect(),
    )
}

#[test]
fn lines_follow_str_lines() {
    for text in ["", "a", "a\n", "a\r\nb", "a\n\nb\n", "x\r", "\n"] {
        let expected: Vec<String> = text.lines().map(str::to_owned).collect();
        assert_eq!(text_lines(text), expected, "lines of {text:?}");
    }
}

#[test]
fn content_is_indented_line_by_line() {
    assert_eq!(indent_show_content("a\nb"), "  a\n  b");
    assert_eq!(indent_show_content("a\nb\n"), "  a\n  b\n");
    assert_eq!(indent_show_content(""), "");
}

#[test]
fn comment_summaries_use_the_first_nonblank_line() {
    assert_eq!(summary_for_comment_markdown("\n  \n## Heading here \nbody"), "Heading here");
    assert_eq!(summary_for_comment_markdown("   \n"), "No summary");
    assert_eq!(summary_for_comment_markdown("###\nlater"), "No summary");
    assert_eq!(summary_for_comment_markdown("plain"), "plain");
}

#[test]
fn invitation_states_have_labels() {
    assert_eq!(invitation_status_label("decline"), "rejected");
    assert_eq!(invitation_status_label("revoke"), "revoked");
    assert_eq!(invitation_status_label("supersede"), "superseded");
    assert_eq!(invitation_status_label("open"), "open");
}

#[test]
fn claims_and_references_are_shown() {
    let claims = ActorClaims {
        display_name: Some("Al".into()),
        alias: Some("al".into()),
        actor_type: None,
    };
    assert_eq!(format_actor_claims(&claims), "\"Al\"  @al  (unknown)");
    let bare = ActorClaims { display_name: None, alias: None, actor_type: Some("bot".into()) };
    assert_eq!(format_actor_claims(&bare), "\"unnamed\"  (bot)");
    assert_eq!(format_actor_reference_value(&obj(&[("display_name", "Al"), ("alias", "al")])), "Al (@al)");
    assert_eq!(format_actor_reference_value(&obj(&[("alias", "al")])), "@al");
    assert_eq!(format_actor_reference_value(&obj(&[("actor_ref", "r1")])), "r1");
    assert_eq!(format_actor_reference_value(&Json::Null), "-");
}

#[test]
fn pager_policy_follows_the_flags() {
    assert_eq!(PagerPolicy::from_cli(true, false, true), PagerPolicy::Never);
    assert_eq!(PagerPolicy::from_cli(false, true, false), PagerPolicy::Never);
    assert_eq!(PagerPolicy::from_cli(false, false, true), PagerPolicy::Force);
    assert_eq!(PagerPolicy::from_cli(false, false, false), PagerPolicy::Auto);
    assert!(should_page(PagerPolicy::Force, false, false));
    assert!(!should_page(PagerPolicy::Never, true, true));
    assert!(should_page(PagerPolicy::Auto, true, true));
    assert!(!should_page(PagerPolicy::Auto, true, false));
}

#[test]
fn find_with_takes_one_command_that_reads_a_reference() {
    assert!(validate_find_with_command("echo", Some("reference")).is_ok());
    assert!(validate_find_with_command(" open ", Some("proposition")).is_ok());
    let message = |r: Result<(), FactError>| match r {
        Err(FactError::User(m)) => m,
        _ => panic!("expected a user error"),
    };
    assert_eq!(
        message(validate_find_with_command("echo open", Some("reference"))),
        "--with accepts one command name, such as echo or revisions"
    );
    assert_eq!(
        message(validate_find_with_command("  ", None)),
        "--with accepts one command name, such as echo or revisions"
    );
    assert_eq!(message(validate_find_with_command("nope", None)), "unknown command for --with: nope");
    assert_eq!(
        message(validate_find_with_command("init", Some(""))),
        "--with command \"init\" must take a proposition reference as its first argument"
    );
}

#[test]
fn help_text_lists_the_command_groups() {
    let help = expanded_help_text();
    assert!(help.starts_with("A simple, adaptable substrate for trusted knowledge.\n"));
    assert!(help.contains("Sync and Remotes:"));
    assert!(help.ends_with("fact COMMAND --help      Show help for one command\n"));
}

fn input() -> Input {
    Input {
        name: None,
        alias: None,
        self_actor: false,
        actor_type: None,
        profile: None,
        role: None,
        source: None,
        verified_by: None,
        home: None,
        print_env: false,
        use_home: false,
        permission: Vec::new(),
        participate: false,
        no_create: false,
        update_directory: false,
        ledger: None,
    }
}

#[test]
fn fact_as_reports_the_signer_without_options() {
    assert!(reports_current_signer(&input()));
    let mut with_alias = input();
    with_alias.alias = Some("al".into());
    assert!(!reports_current_signer(&with_alias));
    let mut with_ledger = input();
    with_ledger.ledger = Some("main".into());
    assert!(reports_current_signer(&with_ledger));
    let mut updating = input();
    updating.update_directory = true;
    assert!(!reports_current_signer(&updating));
}

#[test]
fn fact_as_works_out_the_requested_actor() {
    let mut named = input();
    named.name = Some("Al".into());
    assert_eq!(requested_actor(&named, None).unwrap(), (None, "Al".to_string(), true));
    named.alias = Some("al".into());
    assert_eq!(requested_actor(&named, None).unwrap(), (Some("Al".to_string()), "al".to_string(), false));
    assert!(matches!(requested_actor(&input(), None), Err(FactError::User(_))));
    let profile = ActorProfile {
        display_name: "Profile Name".into(),
        alias: None,
        actor_type: "human".into(),
        role: None,
    };
    assert_eq!(
        requested_actor(&input(), Some(("work", &profile))).unwrap(),
        (Some("Profile Name".to_string()), "work".to_string(), false)
    );
}

#[test]
fn shell_words_are_quoted_when_needed() {
    assert_eq!(shell_escape("/tmp/fact-home_1.x"), "/tmp/fact-home_1.x");
    assert_eq!(shell_escape("/tmp/my home"), "'/tmp/my home'");
    assert_eq!(shell_escape("it's"), "'it'\\''s'");
}

#[test]
fn comments_are_filtered() {
    let author = "01890a5d-ac96-774b-bcce-b302099a8057";
    let comment = obj(&[
        ("actor_id", author),
        ("created_at", "2025-01-02T00:00:00Z"),
        ("summary", "Needs Work"),
        ("content", "cc @alice please look"),
    ]);
    let id = uuid::Uuid::parse_str(author).unwrap().as_u128();
    assert!(comment_matches_author(&comment, Some(id)));
    assert!(!comment_matches_author(&comment, Some(id + 1)));
    assert!(comment_matches_author(&comment, None));
    assert!(comment_matches_since(&comment, Some("2025-01-01")));
    assert!(!comment_matches_since(&comment, Some("2025-02")));
    assert!(comment_matches_text(&comment, Some("needs work")));
    assert!(!comment_matches_text(&comment, Some("Needs")));
    assert!(comment_matches_mention(&comment, Some("@alice")));
    assert!(!comment_matches_mention(&comment, Some("@bob")));
    assert!(text_contains("abc", ""));
    assert!(!text_contains("", "a"));
}

#[test]
fn artifact_file_names_naming_another_actor_are_flagged() {
    let actor = uuid::Uuid::parse_str("01890a5d-ac96-774b-bcce-b302099a8057").unwrap().as_u128();
    let other = "01890a5d-ac96-774b-bcce-b302099a8058";
    assert_eq!(
        stem_actor_mismatch(Some(other), actor).unwrap(),
        format!("filename actor {other} does not match bundle actor 01890a5d-ac96-774b-bcce-b302099a8057; using bundle actor")
    );
    assert_eq!(stem_actor_mismatch(Some("al"), actor), None);
    assert_eq!(filename_actor_mismatch("-", actor), None);
    assert!(filename_actor_mismatch(&format!("/tmp/{other}.json"), actor).is_some());
    assert_eq!(filename_actor_mismatch("/tmp/01890a5d-ac96-774b-bcce-b302099a8057.json", actor), None);
    assert!(filename_actor_mismatch(other, actor).is_some());
    assert!(filename_actor_mismatch(&format!("out//{other}"), actor).is_some());
    assert_eq!(filename_actor_mismatch(&format!("{other}.request.json"), actor), None);
    assert_eq!(filename_actor_mismatch(&format!(".{other}"), actor), None);
}
